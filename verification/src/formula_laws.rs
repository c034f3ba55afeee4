//! Laws of numbers: what scores, rewards, predictions, costs and weights come to.

use vstd::arithmetic::div_mod::lemma_fundamental_div_mod_converse;
use vstd::prelude::*;
use vstd::string::StringSliceAdditionalSpecFns;

use crate::arith::{capped64, monus};
use crate::call::{AssetInfo, CallView};
use crate::errors::LifecycleError;
use crate::events::{EventView, Notice};
use crate::history::{
    average_cost, cost_sum, costed, costed_of_type, dated_cost, gap_count, gap_total, is_latest,
    of_type, overdue, prediction, recent, serviced, service_times, similar, similar_pairs,
    similar_to, since, task_types,
};
use crate::lists::{distinct, lemma_distinct};
use crate::maintenance::{batch_submitted, score_after, submitted};
use crate::names::{Address, Symbol};
use crate::record_laws::{
    alerts_are_overdue, duplicates_are_the_similar_pairs, overdue_types_raise_alerts,
};
use crate::scores::{
    after_decay, current_score, decay_check, decay_value, eligible, is_last_service, score_given,
    stored_score,
};
use crate::scoring::{
    age, contribution, contributions, faded, intervals, recency, reward, scored, weighted,
};
use crate::state::State;
use crate::types::{AssetView, BatchView, ConfigView, EngineerView, Priority, RecordView};
use crate::weights::{
    decimal, first_key, first_of, in_class, number_for, weights_in, Class, FrequencyWeights,
};

verus! {

/// Dividing `x` by `d` gives the `n` for which `n * d <= x < (n + 1) * d`.
proof fn lemma_quotient(x: int, d: int, n: int)
    requires
        d > 0,
        n * d <= x < (n + 1) * d,
    ensures
        x / d == n,
{
    assert((n + 1) * d == n * d + d) by (nonlinear_arith);
    lemma_fundamental_div_mod_converse(x, d, n, x - n * d);
}

/// A list that is filtered holds the items at the places where the filter holds, in order.
pub proof fn lemma_filter_places<T>(s: Seq<T>, p: spec_fn(T) -> bool, places: Seq<int>)
    requires
        forall|k: int|
            0 <= k < places.len() ==> 0 <= #[trigger] places[k] < s.len() && p(s[places[k]]),
        forall|k: int, l: int| 0 <= k < l < places.len() ==> places[k] < places[l],
        forall|i: int| 0 <= i < s.len() && p(#[trigger] s[i]) ==> places.contains(i),
    ensures
        s.filter(p) == Seq::new(places.len(), |k: int| s[places[k]]),
    decreases s.len(),
{
    reveal(Seq::filter);
    let all = Seq::new(places.len(), |k: int| s[places[k]]);
    if s.len() == 0 {
        if places.len() > 0 {
            assert(0 <= places[0] < s.len());
        }
        assert(s.filter(p) =~= all);
    } else {
        let n = s.len() - 1;
        let t = s.drop_last();
        if p(s[n]) {
            assert(places.contains(n));
            let k = choose|k: int| 0 <= k < places.len() && places[k] == n;
            assert(k == places.len() - 1) by {
                if k < places.len() - 1 {
                    assert(places[k] < places[places.len() - 1]);
                }
            }
            let rest = places.drop_last();
            assert forall|j: int| 0 <= j < rest.len() implies 0 <= #[trigger] rest[j] < t.len()
                && p(t[rest[j]]) by {
                assert(places[j] < places[k]);
            }
            assert forall|i: int| 0 <= i < t.len() && p(#[trigger] t[i]) implies rest.contains(
                i,
            ) by {
                assert(p(s[i]));
                let j = choose|j: int| 0 <= j < places.len() && places[j] == i;
                assert(rest[j] == i);
            }
            lemma_filter_places(t, p, rest);
            assert(s.filter(p) =~= all);
        } else {
            assert forall|j: int| 0 <= j < places.len() implies 0 <= #[trigger] places[j] < t.len()
                && p(t[places[j]]) by {
                assert(p(s[places[j]]));
            }
            assert forall|i: int| 0 <= i < t.len() && p(#[trigger] t[i]) implies places.contains(
                i,
            ) by {
                assert(p(s[i]));
            }
            lemma_filter_places(t, p, places);
            assert(s.filter(p) =~= all);
        }
    }
}

/// A list that is filtered is as long as a count of the items that pass.
proof fn lemma_filter_count<T>(s: Seq<T>, p: spec_fn(T) -> bool, counts: Seq<int>)
    requires
        counts.len() == s.len() + 1,
        counts[0] == 0,
        forall|i: int|
            0 <= i < s.len() ==> counts[i + 1] == counts[i] + if p(#[trigger] s[i]) {
                1int
            } else {
                0
            },
    ensures
        s.filter(p).len() == counts[s.len() as int],
    decreases s.len(),
{
    reveal(Seq::filter);
    if s.len() > 0 {
        let t = s.drop_last();
        assert forall|i: int| 0 <= i < t.len() implies counts.drop_last()[i + 1]
            == counts.drop_last()[i] + if p(#[trigger] t[i]) {
            1int
        } else {
            0
        } by {
            assert(s[i] == t[i]);
        }
        lemma_filter_count(t, p, counts.drop_last());
        assert(s[s.len() - 1] == s.last());
    }
}

/// A record that is no change of owner and no duplicate counts for its credit less one part in
/// 518400 of it for every ledger of five seconds of its age.
pub proof fn a_record_fades_by_the_ledger(a: AssetView, i: int, now: u64, g: int)
    requires
        0 <= i < a.history.len(),
        a.history[i].task_type != (Symbol { head: 0x58464552, tail: 0 }),
        !a.duplicates.contains(a.history[i].timestamp),
        0 <= g <= 518_400,
        5 * g <= now - a.history[i].timestamp < 5 * g + 5,
    ensures
        contribution(a, i, now) + a.credits[i] * g == 518_400 * a.credits[i],
{
    let k = a.credits[i] as int;
    assert(age(a.history[i], now) == g);
    assert(k * (518_400 - g) + k * g == 518_400 * k) by (nonlinear_arith);
}

/// One more ledger of age costs a record exactly its credit in parts.
pub proof fn a_ledger_costs_the_credit(a: AssetView, i: int, now: u64, g: int)
    requires
        0 <= i < a.history.len(),
        a.history[i].task_type != (Symbol { head: 0x58464552, tail: 0 }),
        !a.duplicates.contains(a.history[i].timestamp),
        0 <= g < 518_400,
        5 * g <= now - a.history[i].timestamp < 5 * g + 5,
        now + 5 <= u64::MAX,
    ensures
        contribution(a, i, (now + 5) as u64) == contribution(a, i, now) - a.credits[i],
{
    let k = a.credits[i] as int;
    a_record_fades_by_the_ledger(a, i, now, g);
    a_record_fades_by_the_ledger(a, i, (now + 5) as u64, g + 1);
    assert(k * (g + 1) == k * g + k) by (nonlinear_arith);
}

/// The recency score is the sum of what the records still count for, to the nearest point and at
/// most 100. `ages` are the ages of the records in ledgers and `sums` their running sum in parts
/// of 518400.
pub proof fn recency_adds_up_the_records(a: AssetView, now: u64, ages: Seq<int>, sums: Seq<int>)
    requires
        ages.len() == a.history.len(),
        sums.len() == a.history.len() + 1,
        sums[0] == 0,
        forall|i: int|
            0 <= i < ages.len() ==> {
                let late = now - a.history[i].timestamp;
                if late <= 0 {
                    #[trigger] ages[i] == 0
                } else {
                    5 * ages[i] <= late < 5 * ages[i] + 5
                }
            },
        forall|i: int|
            0 <= i < ages.len() ==> sums[i + 1] == sums[i] + if a.history[i].task_type == (
            Symbol { head: 0x58464552, tail: 0 }) || a.duplicates.contains(a.history[i].timestamp)
                || #[trigger] ages[i] >= 518_400 {
                0
            } else {
                a.credits[i] * (518_400 - ages[i])
            },
    ensures
        ({
            let total = sums[a.history.len() as int];
            let r = recency(a, now);
            &&& r <= 100
            &&& r < 100 ==> 2 * total <= (2 * r + 1) * 518_400
            &&& r > 0 ==> 2 * total > (2 * r - 1) * 518_400
        }),
{
    lemma_contribution_sums(a, now, ages, sums, a.history.len());
}

proof fn lemma_contribution_sums(
    a: AssetView,
    now: u64,
    ages: Seq<int>,
    sums: Seq<int>,
    n: nat,
)
    requires
        n <= ages.len() == a.history.len(),
        sums.len() == a.history.len() + 1,
        sums[0] == 0,
        forall|i: int|
            0 <= i < ages.len() ==> {
                let late = now - a.history[i].timestamp;
                if late <= 0 {
                    #[trigger] ages[i] == 0
                } else {
                    5 * ages[i] <= late < 5 * ages[i] + 5
                }
            },
        forall|i: int|
            0 <= i < ages.len() ==> sums[i + 1] == sums[i] + if a.history[i].task_type == (
            Symbol { head: 0x58464552, tail: 0 }) || a.duplicates.contains(a.history[i].timestamp)
                || #[trigger] ages[i] >= 518_400 {
                0
            } else {
                a.credits[i] * (518_400 - ages[i])
            },
    ensures
        contributions(a, n, now) == sums[n as int],
        sums[n as int] >= 0,
    decreases n,
{
    if n > 0 {
        let i = n - 1;
        lemma_contribution_sums(a, now, ages, sums, i as nat);
        assert(ages[i] >= 0);
        assert(age(a.history[i], now) == ages[i]);
        assert(sums[i + 1] >= sums[i]) by {
            let (k, m) = (a.credits[i] as int, 518_400 - ages[i]);
            if m >= 0 {
                assert(k * m >= 0) by (nonlinear_arith)
                    requires
                        k >= 0,
                        m >= 0,
                ;
            }
        }
        if ages[i] >= 518_400 {
            assert(a.credits[i] * 0 == 0);
        }
        assert(contribution(a, i, now) == sums[i + 1] - sums[i]);
    }
}

/// After `n` full intervals without an update, and before the next one is full, a score has lost
/// `n` times the rate, and nothing below zero.
pub proof fn scores_fade_by_the_interval(a: AssetView, c: ConfigView, now: u64, since: u64, n: int)
    requires
        c.decay_interval > 0,
        since == match a.last_update {
            Some(t) => t,
            None => 0u64,
        },
        0 <= n,
        if now <= since {
            n == 0
        } else {
            n * c.decay_interval <= now - since < (n + 1) * c.decay_interval
        },
    ensures
        a.score <= n * c.decay_rate ==> faded(a, c, now) == 0,
        a.score > n * c.decay_rate ==> faded(a, c, now) == a.score - n * c.decay_rate,
{
    let d = c.decay_interval as int;
    if now <= since {
        assert(0int / d == 0) by (nonlinear_arith)
            requires
                d > 0,
        ;
    } else {
        lemma_quotient(now - since, d, n);
    }
    assert(intervals(a, c, now) == n);
    let r = c.decay_rate as int;
    assert(n * r >= 0) by (nonlinear_arith)
        requires
            n >= 0,
            r >= 0,
    ;
}

/// Bringing a score up to date after `n` full intervals takes `n` times the rate off it, leaves 1
/// where there is a record and 0 where there is none, stores what it tells and the time, and adds
/// both to the lists of scores and valuations; before the first full interval, and for a score of
/// 0, it stores nothing.
pub proof fn decay_takes_the_rate_for_every_interval(
    s: State,
    call: CallView,
    asset_id: u64,
    since: u64,
    n: int,
)
    requires
        s.wf(),
        decay_check(s, asset_id) is None,
        !s.asset(asset_id).frozen,
        since == match s.asset(asset_id).last_update {
            Some(t) => t,
            None => 0u64,
        },
        0 <= n,
        if call.now <= since {
            n == 0
        } else {
            n * s.config->0.decay_interval <= call.now - since < (n + 1)
                * s.config->0.decay_interval
        },
    ensures
        ({
            let a = s.asset(asset_id);
            let b = after_decay(s, call, asset_id).asset(asset_id);
            let left = a.score - n * s.config->0.decay_rate;
            let told = decay_value(s, call, asset_id);
            &&& left > 0 ==> told == left
            &&& left <= 0 ==> told == if a.history.len() > 0 {
                1int
            } else {
                0
            }
            &&& n == 0 || a.score == 0 ==> after_decay(s, call, asset_id) == s
            &&& n > 0 && a.score > 0 ==> {
                &&& b.score == told
                &&& b.last_update == Some(call.now)
                &&& b.score_history.last().score == told
                &&& b.score_history.last().timestamp == call.now
                &&& b.valuations.last() == (call.now, told as u64)
                &&& b.history == a.history
                &&& after_decay(s, call, asset_id).events == s.events.push(
                    EventView::Plain(
                        Notice::Decayed {
                            asset_id,
                            old_score: a.score,
                            new_score: told,
                            timestamp: call.now,
                        },
                    ),
                )
            }
        }),
{
    scores_fade_by_the_interval(s.asset(asset_id), s.config->0, call.now, since, n);
    let d = s.config->0.decay_interval as int;
    if call.now <= since {
        assert(0int / d == 0) by (nonlinear_arith)
            requires
                d > 0,
        ;
    } else {
        lemma_quotient(call.now - since, d, n);
    }
    assert(intervals(s.asset(asset_id), s.config->0, call.now) == n);
}

/// Without frequency weights the collateral score is the lower of the recency score and of what
/// decay has left, and at least 1 where there is a record; it is 0 for a deprecated asset and for
/// one out of service.
pub proof fn collateral_is_the_lower_of_recency_and_decay(
    s: State,
    info: AssetInfo,
    now: u64,
    asset_id: u64,
    since: u64,
    n: int,
)
    requires
        s.wf(),
        s.config is Some,
        !s.scoring_weights.contains_key(info.asset_type) || weights_in(
            s.scoring_weights[info.asset_type],
        ) is None,
        since == match s.asset(asset_id).last_update {
            Some(t) => t,
            None => 0u64,
        },
        0 <= n,
        if now <= since {
            n == 0
        } else {
            n * s.config->0.decay_interval <= now - since < (n + 1) * s.config->0.decay_interval
        },
    ensures
        ({
            let a = s.asset(asset_id);
            let left = a.score - n * s.config->0.decay_rate;
            let fresh = recency(a, now) as int;
            let lower = if left < fresh {
                left
            } else {
                fresh
            };
            let x = current_score(s, info, now, asset_id);
            &&& info.deprecated || a.frozen ==> x == 0
            &&& !info.deprecated && !a.frozen && lower > 0 ==> x == lower
            &&& !info.deprecated && !a.frozen && lower <= 0 ==> x == if a.history.len() > 0 {
                1int
            } else {
                0
            }
            &&& eligible(s, info, now, asset_id) <==> x >= s.config->0.eligibility_threshold
            &&& !info.deprecated && !a.frozen ==> stored_score(s, info, now, asset_id) == if left
                > 0 {
                left
            } else if a.history.len() > 0 {
                1
            } else {
                0
            }
        }),
{
    scores_fade_by_the_interval(s.asset(asset_id), s.config->0, now, since, n);
    lemma_recency_bound(s.asset(asset_id), now);
    let r = s.config->0.decay_rate as int;
    assert(n * r >= 0) by (nonlinear_arith)
        requires
            n >= 0,
            r >= 0,
    ;
}

proof fn lemma_recency_bound(a: AssetView, now: u64)
    ensures
        recency(a, now) <= 100,
{
    lemma_contributions_positive(a, a.history.len(), now);
}

proof fn lemma_contributions_positive(a: AssetView, n: nat, now: u64)
    ensures
        contributions(a, n, now) >= 0,
    decreases n,
{
    if n > 0 {
        lemma_contributions_positive(a, (n - 1) as nat, now);
        let (k, m) = (a.credits[n - 1] as int, monus(518_400, age(a.history[n - 1], now)));
        assert(k * m >= 0) by (nonlinear_arith)
            requires
                k >= 0,
                m >= 0,
        ;
    }
}

/// With frequency weights a score of `y` points becomes `x` where `x` is `y` times the weight in
/// hundredths, rounded down, and at most 100. The weight is the high one from the high threshold
/// on, else the medium one from the medium threshold on, else the low one; `counts` counts the
/// maintenance events of the last `window_days` days of 86400 seconds.
pub proof fn weights_scale_by_the_count(
    a: AssetView,
    w: FrequencyWeights,
    y: u32,
    now: u64,
    counts: Seq<int>,
    x: int,
)
    requires
        y <= 100,
        a.history.len() <= u32::MAX,
        counts.len() == a.history.len() + 1,
        counts[0] == 0,
        forall|i: int|
            0 <= i < a.history.len() ==> counts[i + 1] == counts[i] + if (
            #[trigger] a.history[i]).task_type != (Symbol { head: 0x58464552, tail: 0 })
                && a.history[i].timestamp + w.window_days * 86_400 >= now {
                1int
            } else {
                0
            },
        ({
            let n = counts[a.history.len() as int];
            let m = if n >= w.high_threshold {
                w.high
            } else if n >= w.medium_threshold {
                w.medium
            } else {
                w.low
            };
            100 * x <= y * m < 100 * (x + 1)
        }),
    ensures
        weighted(a, Some(w), y, now) == x,
        weighted(a, None, y, now) == y,
{
    let p = since(monus(now as int, w.window_days * 86_400));
    assert forall|i: int| 0 <= i < a.history.len() implies counts[i + 1] == counts[i] + if p(
        #[trigger] a.history[i],
    ) {
        1int
    } else {
        0
    } by {}
    lemma_filter_count(a.history, p, counts);
    assert forall|i: int| 0 <= i < a.history.len() implies counts[i] <= #[trigger] counts[i + 1]
        <= counts[i] + 1 by {
        let r = a.history[i];
    }
    lemma_counts_grow(counts, a.history.len() as int);
    let n = counts[a.history.len() as int];
    let m = if n >= w.high_threshold {
        w.high
    } else if n >= w.medium_threshold {
        w.medium
    } else {
        w.low
    } as int;
    assert(recent(a.history, now, w.window_days).len() == n);
    assert(0 <= y * m <= 100 * m) by (nonlinear_arith)
        requires
            0 <= y <= 100,
            m >= 0,
    ;
    lemma_quotient(y * m, 100, x);
    assert(0 <= x <= u32::MAX);
    assert(x % 0x1_0000_0000 == x) by (nonlinear_arith)
        requires
            0 <= x < 0x1_0000_0000,
    ;
}

proof fn lemma_counts_grow(counts: Seq<int>, n: int)
    requires
        0 <= n < counts.len(),
        counts[0] == 0,
        forall|i: int| 0 <= i < n ==> counts[i] <= #[trigger] counts[i + 1] <= counts[i] + 1,
    ensures
        0 <= counts[n] <= n,
    decreases n,
{
    if n > 0 {
        lemma_counts_grow(counts, n - 1);
        assert(counts[(n - 1) + 1] == counts[n]);
    }
}

/// With acceptable frequency weights for its type, the collateral score of an asset in service is
/// the lower of the recency score and the faded score, scaled by the weights, at most 100 and at
/// least 1 where there is a record.
pub proof fn collateral_is_scaled_by_the_weights(
    s: State,
    info: AssetInfo,
    now: u64,
    asset_id: u64,
    w: FrequencyWeights,
)
    requires
        s.wf(),
        s.config is Some,
        !info.deprecated,
        !s.asset(asset_id).frozen,
        s.scoring_weights.contains_key(info.asset_type),
        weights_in(s.scoring_weights[info.asset_type]) == Some(w),
    ensures
        ({
            let a = s.asset(asset_id);
            let (fresh, left) = (recency(a, now), faded(a, s.config->0, now));
            let y = if left < fresh {
                left
            } else {
                fresh
            };
            let x = weighted(a, Some(w), y, now);
            current_score(s, info, now, asset_id) == if x > 100 {
                100
            } else if x == 0 && a.history.len() > 0 {
                1
            } else {
                x
            }
        }),
{
}

/// For any recency score, the collateral score that goes with it is the lower of the two scores,
/// scaled by the weights where there are acceptable ones, at most 100 and at least 1 where there is
/// a record; it is 0 for a deprecated asset and for one out of service.
pub proof fn any_recency_gives_the_lower_score(
    s: State,
    info: AssetInfo,
    now: u64,
    asset_id: u64,
    q: u32,
)
    requires
        s.wf(),
        s.config is Some,
    ensures
        ({
            let a = s.asset(asset_id);
            let left = faded(a, s.config->0, now);
            let y = if left < q {
                left
            } else {
                q
            };
            let w = if s.scoring_weights.contains_key(info.asset_type) {
                weights_in(s.scoring_weights[info.asset_type])
            } else {
                None
            };
            let x = weighted(a, w, y, now);
            score_given(s, info, now, asset_id, q) == if info.deprecated || a.frozen {
                0
            } else if x > 100 {
                100
            } else if x == 0 && a.history.len() > 0 {
                1
            } else {
                x
            }
        }),
        score_given(s, info, now, asset_id, recency(s.asset(asset_id), now)) == current_score(
            s,
            info,
            now,
            asset_id,
        ),
{
}

/// What a well-formed asset, engineer and setting are.
pub proof fn well_formed_means(a: AssetView, e: EngineerView, c: ConfigView)
    ensures
        a.wf() <==> {
            &&& a.score <= 100
            &&& forall|i: int|
                0 <= i < a.score_history.len() ==> (#[trigger] a.score_history[i]).score <= 100
            &&& forall|i: int| 0 <= i < a.valuations.len() ==> (#[trigger] a.valuations[i]).1 <= 100
            &&& a.history.len() <= u32::MAX
            &&& a.credits.len() == a.history.len()
            &&& forall|i: int, j: int|
                0 <= i < j < a.tasks.len() ==> (#[trigger] a.tasks[i]).task_id != (
                #[trigger] a.tasks[j]).task_id
        },
        e.wf() ==> e.assets.len() <= u32::MAX && forall|i: int, j: int|
            0 <= i < j < e.assets.len() ==> e.assets[i] != e.assets[j],
        e.assets.no_duplicates() && e.assets.len() <= u32::MAX ==> e.wf(),
        c.wf() <==> c.max_history > 0 && c.score_increment > 0 && c.decay_rate > 0
            && c.decay_interval > 0 && c.eligibility_threshold > 0 && c.max_notes_length > 0,
{
}

/// The reward `w` for a base of `b` points at reputation `r` is `b * (500 + r)` thousandths,
/// rounded down: `1000 * w <= b * (500 + r) < 1000 * (w + 1)`. The base is the weight configured
/// for the task type, and the general increment where none is.
pub proof fn rewards_follow_reputation(c: ConfigView, t: Symbol, r: u32, b: u32, w: u32)
    requires
        if c.task_weights.contains_key(t) {
            b == c.task_weights[t]
        } else {
            b == c.score_increment
        },
        1000 * w <= b * (500 + r) < 1000 * (w + 1),
    ensures
        reward(c, t, r) == w,
{
    lemma_quotient(b * (500 + r), 1000, w as int);
    assert((w as int) % 0x1_0000_0000 == w) by (nonlinear_arith)
        requires
            0 <= w < 0x1_0000_0000,
    ;
}

/// Where the reward exceeds 32 bits, its low 32 bits count: for `1000 * q <= b * (500 + r) < 1000 *
/// (q + 1)` and `q == m * 2^32 + w` the reward is `w`.
pub proof fn large_rewards_wrap(c: ConfigView, t: Symbol, r: u32, b: u32, q: int, m: int, w: u32)
    requires
        if c.task_weights.contains_key(t) {
            b == c.task_weights[t]
        } else {
            b == c.score_increment
        },
        1000 * q <= b * (500 + r) < 1000 * (q + 1),
        q == m * 0x1_0000_0000 + w,
    ensures
        reward(c, t, r) == w,
{
    lemma_quotient(b * (500 + r), 1000, q);
    assert(q % 0x1_0000_0000 == w) by {
        lemma_fundamental_div_mod_converse(q, 0x1_0000_0000, m, w as int);
    }
}

/// A submission raises the score by its reward, up to 100, and the record counts for that reward.
pub proof fn submissions_earn_their_reward(
    s: State,
    call: CallView,
    asset_id: u64,
    task_type: Symbol,
    priority: Priority,
    notes: Seq<u8>,
    engineer: Address,
    cost: Option<u64>,
    b: u32,
    w: u32,
)
    requires
        s.wf(),
        submitted(s, call, asset_id, task_type, priority, notes, engineer, cost) is Ok,
        if s.config->0.task_weights.contains_key(task_type) {
            b == s.config->0.task_weights[task_type]
        } else {
            b == s.config->0.score_increment
        },
        1000 * w <= b * (500 + call.engineer(engineer).reputation) < 1000 * (w + 1),
    ensures
        ({
            let t = submitted(s, call, asset_id, task_type, priority, notes, engineer, cost)->Ok_0;
            let (x, y) = (s.asset(asset_id), t.asset(asset_id));
            &&& x.score + w <= 100 ==> y.score == x.score + w
            &&& x.score + w > 100 ==> y.score == 100
            &&& y.credits.len() == y.history.len()
            &&& y.credits.last() == w
            &&& y.score_history.last().score == y.score
            &&& y.score_history.last().timestamp == call.now
            &&& y.valuations.last() == (call.now, y.score as u64)
        }),
{
    rewards_follow_reputation(
        s.config->0,
        task_type,
        call.engineer(engineer).reputation,
        b,
        w,
    );
}

/// A batch raises the score record by record, each by its own reward and up to 100, and every
/// record counts for its own reward. `gains` are the rewards and `scores` the running scores.
pub proof fn batches_earn_their_rewards(
    s: State,
    call: CallView,
    asset_id: u64,
    list: Seq<BatchView>,
    engineer: Address,
    costs: Option<Seq<Option<u64>>>,
    bases: Seq<u32>,
    gains: Seq<u32>,
    scores: Seq<int>,
)
    requires
        s.wf(),
        batch_submitted(s, call, asset_id, list, engineer, costs) is Ok,
        bases.len() == list.len(),
        gains.len() == list.len(),
        scores.len() == list.len() + 1,
        scores[0] == s.asset(asset_id).score,
        forall|i: int|
            0 <= i < list.len() ==> if s.config->0.task_weights.contains_key(
                (#[trigger] list[i]).task_type,
            ) {
                bases[i] == s.config->0.task_weights[list[i].task_type]
            } else {
                bases[i] == s.config->0.score_increment
            },
        forall|i: int|
            0 <= i < list.len() ==> 1000 * (#[trigger] gains[i]) <= bases[i] * (500
                + call.engineer(engineer).reputation) < 1000 * (gains[i] + 1),
        forall|i: int|
            0 <= i < list.len() ==> scores[i + 1] == if scores[i] + (#[trigger] gains[i]) > 100 {
                100
            } else {
                scores[i] + gains[i]
            },
    ensures
        ({
            let t = batch_submitted(s, call, asset_id, list, engineer, costs)->Ok_0;
            let (x, y) = (s.asset(asset_id), t.asset(asset_id));
            &&& y.score == scores[list.len() as int]
            &&& y.credits.len() == x.credits.len() + list.len()
            &&& forall|i: int|
                0 <= i < list.len() ==> #[trigger] y.credits[x.credits.len() + i] == gains[i]
            &&& forall|i: int|
                0 <= i < x.credits.len() ==> #[trigger] y.credits[i] == x.credits[i]
            &&& y.score_history.last().score == y.score
            &&& y.score_history.last().timestamp == call.now
            &&& y.valuations.last() == (call.now, y.score as u64)
        }),
{
    let (c, r) = (s.config->0, call.engineer(engineer).reputation);
    assert forall|i: int| 0 <= i < list.len() implies reward(c, (#[trigger] list[i]).task_type, r)
        == gains[i] by {
        assert(1000 * gains[i] <= bases[i] * (500 + r));
        rewards_follow_reputation(c, list[i].task_type, r, bases[i], gains[i]);
    }
    lemma_batch_scores(c, s.asset(asset_id).score, list, r, gains, scores, list.len() as int);
    assert(list.take(list.len() as int) =~= list);
}

proof fn lemma_batch_scores(
    c: ConfigView,
    start: u32,
    list: Seq<BatchView>,
    r: u32,
    gains: Seq<u32>,
    scores: Seq<int>,
    n: int,
)
    requires
        0 <= n <= list.len(),
        gains.len() == list.len(),
        scores.len() == list.len() + 1,
        scores[0] == start,
        start <= 100,
        forall|i: int| 0 <= i < list.len() ==> reward(c, (#[trigger] list[i]).task_type, r)
            == gains[i],
        forall|i: int|
            0 <= i < list.len() ==> scores[i + 1] == if scores[i] + (#[trigger] gains[i]) > 100 {
                100
            } else {
                scores[i] + gains[i]
            },
        score_after(c, start, list, r) is Some,
    ensures
        score_after(c, start, list.take(n), r) matches Some(x) && x == scores[n],
        0 <= scores[n] <= 100,
    decreases n,
{
    if n == 0 {
        assert(list.take(0) =~= Seq::empty());
    } else {
        lemma_batch_scores(c, start, list, r, gains, scores, n - 1);
        assert(list.take(n).drop_last() =~= list.take(n - 1));
        assert(list.take(n).last() == list[n - 1]);
        assert(gains[n - 1] == reward(c, list[n - 1].task_type, r));
        if score_after(c, start, list.take(n), r) is None {
            lemma_no_score(c, start, list, r, n);
        }
    }
}

/// A batch is refused for its score exactly if one of its records takes the running score beyond
/// 32 bits. `gains` are the rewards and `scores` the running scores.
pub proof fn batch_scores_overflow_only_then(
    c: ConfigView,
    start: u32,
    list: Seq<BatchView>,
    r: u32,
    gains: Seq<u32>,
    scores: Seq<int>,
)
    requires
        start <= 100,
        gains.len() == list.len(),
        scores.len() == list.len() + 1,
        scores[0] == start,
        forall|i: int| 0 <= i < list.len() ==> reward(c, (#[trigger] list[i]).task_type, r)
            == gains[i],
        forall|i: int|
            0 <= i < list.len() ==> scores[i + 1] == if scores[i] + (#[trigger] gains[i]) > 100 {
                100
            } else {
                scores[i] + gains[i]
            },
    ensures
        score_after(c, start, list, r) is Some <==> forall|i: int|
            0 <= i < list.len() ==> scores[i] + (#[trigger] gains[i]) <= u32::MAX,
    decreases list.len(),
{
    if score_after(c, start, list, r) is Some {
        assert forall|i: int| 0 <= i < list.len() implies scores[i] + (#[trigger] gains[i])
            <= u32::MAX by {
            lemma_batch_scores(c, start, list, r, gains, scores, i);
            lemma_batch_scores(c, start, list, r, gains, scores, i + 1);
            assert(list.take(i + 1).drop_last() =~= list.take(i));
            assert(list.take(i + 1).last() == list[i]);
        }
    }
    if list.len() > 0 && (forall|i: int|
        0 <= i < list.len() ==> scores[i] + (#[trigger] gains[i]) <= u32::MAX) {
        let n = list.len() - 1;
        let (b, g, x) = (list.drop_last(), gains.drop_last(), scores.drop_last());
        assert forall|i: int| 0 <= i < b.len() implies reward(c, (#[trigger] b[i]).task_type, r)
            == g[i] by {
            assert(list[i] == b[i]);
        }
        assert forall|i: int| 0 <= i < b.len() implies x[i + 1] == if x[i] + (#[trigger] g[i])
            > 100 {
            100
        } else {
            x[i] + g[i]
        } by {
            assert(gains[i] == g[i]);
        }
        assert forall|i: int| 0 <= i < b.len() implies x[i] + (#[trigger] g[i]) <= u32::MAX by {
            assert(gains[i] == g[i]);
        }
        batch_scores_overflow_only_then(c, start, b, r, g, x);
        lemma_batch_scores(c, start, b, r, g, x, n);
        assert(b.take(n) =~= b);
        assert(reward(c, list[n].task_type, r) == gains[n]);
        assert(scores[n] + gains[n] <= u32::MAX);
    }
}

proof fn lemma_no_score(c: ConfigView, start: u32, list: Seq<BatchView>, r: u32, n: int)
    requires
        0 <= n <= list.len(),
        score_after(c, start, list.take(n), r) is None,
    ensures
        score_after(c, start, list, r) is None,
    decreases list.len() - n,
{
    if n < list.len() {
        assert(list.take(n + 1).drop_last() =~= list.take(n));
        lemma_no_score(c, start, list, r, n + 1);
    } else {
        assert(list.take(n) =~= list);
    }
}

proof fn lemma_gaps(times: Seq<u64>, gaps: Seq<int>, totals: Seq<int>, counts: Seq<int>)
    requires
        times.len() == gaps.len() + 1,
        totals.len() == times.len(),
        counts.len() == times.len(),
        totals[0] == 0,
        counts[0] == 0,
        forall|k: int| 0 <= k < gaps.len() ==> #[trigger] gaps[k] == times[k + 1] - times[k],
        forall|k: int|
            0 <= k < gaps.len() ==> if (#[trigger] gaps[k]) > 0 {
                totals[k + 1] == totals[k] + gaps[k] && counts[k + 1] == counts[k] + 1
            } else {
                totals[k + 1] == totals[k] && counts[k + 1] == counts[k]
            },
    ensures
        gap_total(times) == totals[gaps.len() as int],
        gap_count(times) == counts[gaps.len() as int],
        gap_total(times) >= gap_count(times) >= 0,
    decreases times.len(),
{
    if gaps.len() > 0 {
        let (t, g, u, v) = (
            times.drop_last(),
            gaps.drop_last(),
            totals.drop_last(),
            counts.drop_last(),
        );
        assert forall|k: int| 0 <= k < g.len() implies #[trigger] g[k] == t[k + 1] - t[k] by {
            assert(g[k] == gaps[k]);
        }
        assert forall|k: int| 0 <= k < g.len() implies if (#[trigger] g[k]) > 0 {
            u[k + 1] == u[k] + g[k] && v[k + 1] == v[k] + 1
        } else {
            u[k + 1] == u[k] && v[k + 1] == v[k]
        } by {
            assert(g[k] == gaps[k]);
        }
        lemma_gaps(t, g, u, v);
        let k = gaps.len() - 1;
        assert(gaps[k] == times[k + 1] - times[k]);
        assert(times.last() == times[k + 1]);
    }
}

/// The services of a type are the records of that type, but for changes of owner, in their order.
/// `places` are their places in the history.
proof fn lemma_service_times(h: Seq<RecordView>, task: Symbol, places: Seq<int>)
    requires
        forall|k: int|
            0 <= k < places.len() ==> 0 <= #[trigger] places[k] < h.len()
                && h[places[k]].task_type == task,
        task != (Symbol { head: 0x58464552, tail: 0 }),
        forall|k: int, l: int| 0 <= k < l < places.len() ==> places[k] < places[l],
        forall|i: int|
            0 <= i < h.len() && (#[trigger] h[i]).task_type == task ==> places.contains(i),
    ensures
        service_times(h, task) == Seq::new(places.len(), |k: int| h[places[k]].timestamp),
{
    lemma_filter_places(h, of_type(task), places);
    assert(service_times(h, task) =~= Seq::new(
        places.len(),
        |k: int| h[places[k]].timestamp,
    ));
}

/// The next service of a type is due as long after the last one as the average of the positive
/// times between consecutive ones, where less than a day counts as a day and more than five years
/// as five years. `places` are the places of the services of the type in the history, `gaps` the
/// times between them, `totals` and `counts` add up and count the positive ones, and `average` is
/// their average. A total beyond 64 bits counts as the largest number of 64 bits.
pub proof fn predictions_average_the_gaps(
    h: Seq<RecordView>,
    task: Symbol,
    places: Seq<int>,
    gaps: Seq<int>,
    totals: Seq<int>,
    counts: Seq<int>,
    average: int,
)
    requires
        task != (Symbol { head: 0x58464552, tail: 0 }),
        forall|k: int|
            0 <= k < places.len() ==> 0 <= #[trigger] places[k] < h.len()
                && h[places[k]].task_type == task,
        forall|k: int, l: int| 0 <= k < l < places.len() ==> places[k] < places[l],
        forall|i: int|
            0 <= i < h.len() && (#[trigger] h[i]).task_type == task ==> places.contains(i),
        places.len() == gaps.len() + 1,
        totals.len() == places.len(),
        counts.len() == places.len(),
        totals[0] == 0,
        counts[0] == 0,
        forall|k: int|
            0 <= k < gaps.len() ==> #[trigger] gaps[k] == h[places[k + 1]].timestamp
                - h[places[k]].timestamp,
        forall|k: int|
            0 <= k < gaps.len() ==> if (#[trigger] gaps[k]) > 0 {
                totals[k + 1] == totals[k] + gaps[k] && counts[k + 1] == counts[k] + 1
            } else {
                totals[k + 1] == totals[k] && counts[k + 1] == counts[k]
            },
        ({
            let n = counts[gaps.len() as int];
            let total = if totals[gaps.len() as int] <= u64::MAX {
                totals[gaps.len() as int]
            } else {
                u64::MAX as int
            };
            n > 0 ==> n * average <= total < n * (average + 1)
        }),
    ensures
        ({
            let n = counts[gaps.len() as int];
            let last = h[places[gaps.len() as int]].timestamp;
            let wait = if average < 86_400 {
                86_400
            } else if average > 157_680_000 {
                157_680_000
            } else {
                average
            };
            &&& n == 0 ==> prediction(h, task) == Err::<u64, LifecycleError>(
                LifecycleError::InsufficientPredictionData,
            )
            &&& n > 0 ==> prediction(h, task) == Ok::<u64, LifecycleError>(
                if last + wait <= u64::MAX {
                    (last + wait) as u64
                } else {
                    u64::MAX
                },
            )
        }),
{
    let times = Seq::new(places.len(), |k: int| h[places[k]].timestamp);
    lemma_service_times(h, task, places);
    assert forall|k: int| 0 <= k < gaps.len() implies #[trigger] gaps[k] == times[k + 1]
        - times[k] by {}
    lemma_gaps(times, gaps, totals, counts);
    let n = counts[gaps.len() as int];
    let total = if totals[gaps.len() as int] <= u64::MAX {
        totals[gaps.len() as int]
    } else {
        u64::MAX as int
    };
    if n > 0 {
        assert(n * average == average * n) by (nonlinear_arith);
        assert(n * (average + 1) == (average + 1) * n) by (nonlinear_arith);
        lemma_quotient(total, n, average);
        assert(average >= 0) by (nonlinear_arith)
            requires
                total >= 0,
                n > 0,
                total < n * (average + 1),
        ;
    }
}

/// Without two services of the type there is no prediction, and none for changes of owner.
pub proof fn predictions_need_two_services(h: Seq<RecordView>, task: Symbol)
    requires
        task == (Symbol { head: 0x58464552, tail: 0 }) || forall|i: int, j: int|
            0 <= i < j < h.len() ==> !((#[trigger] h[i]).task_type == task && (
            #[trigger] h[j]).task_type == task),
    ensures
        prediction(h, task) == Err::<u64, LifecycleError>(
            LifecycleError::InsufficientPredictionData,
        ),
{
    let p = of_type(task);
    if task == (Symbol { head: 0x58464552, tail: 0 }) {
        lemma_filter_places(h, p, Seq::empty());
        assert(service_times(h, task).len() == 0);
    } else if exists|i: int| 0 <= i < h.len() && (#[trigger] h[i]).task_type == task {
        let i = choose|i: int| 0 <= i < h.len() && (#[trigger] h[i]).task_type == task;
        let places = seq![i];
        assert forall|j: int| 0 <= j < h.len() && p(#[trigger] h[j]) implies places.contains(
            j,
        ) by {
            assert(h[i].task_type == task && h[j].task_type == task);
            assert(places[0] == i);
        }
        lemma_filter_places(h, p, places);
        assert(service_times(h, task).len() == 1);
    } else {
        lemma_filter_places(h, p, Seq::empty());
        assert(service_times(h, task).len() == 0);
    }
}

/// Services of a type in order of time, `n` of whose steps are forward, predict the next one at a
/// distance `p - last` with `n * (p - last) <= last - first < n * (p - last + 1)`, where that
/// average lies between a day and five years.
pub proof fn predictions_spread_the_whole_time(
    h: Seq<RecordView>,
    task: Symbol,
    places: Seq<int>,
    gaps: Seq<int>,
    counts: Seq<int>,
)
    requires
        task != (Symbol { head: 0x58464552, tail: 0 }),
        forall|k: int|
            0 <= k < places.len() ==> 0 <= #[trigger] places[k] < h.len()
                && h[places[k]].task_type == task,
        forall|k: int, l: int| 0 <= k < l < places.len() ==> places[k] < places[l],
        forall|i: int|
            0 <= i < h.len() && (#[trigger] h[i]).task_type == task ==> places.contains(i),
        places.len() == gaps.len() + 1,
        counts.len() == places.len(),
        counts[0] == 0,
        forall|k: int|
            0 <= k < gaps.len() ==> 0 <= #[trigger] gaps[k] == h[places[k + 1]].timestamp
                - h[places[k]].timestamp,
        forall|k: int|
            0 <= k < gaps.len() ==> counts[k + 1] == counts[k] + if (#[trigger] gaps[k]) > 0 {
                1int
            } else {
                0
            },
        ({
            let n = counts[gaps.len() as int];
            let (first, last) = (
                h[places[0]].timestamp as int,
                h[places[gaps.len() as int]].timestamp as int,
            );
            &&& n > 0
            &&& n * 86_400 <= last - first <= n * 157_680_000
            &&& last + 157_680_000 <= u64::MAX
        }),
    ensures
        ({
            let n = counts[gaps.len() as int];
            let (first, last) = (
                h[places[0]].timestamp as int,
                h[places[gaps.len() as int]].timestamp as int,
            );
            prediction(h, task) matches Ok(p) && n * (p - last) <= last - first < n * (p - last
                + 1)
        }),
{
    let m = gaps.len() as int;
    let n = counts[m];
    let (first, last) = (h[places[0]].timestamp as int, h[places[m]].timestamp as int);
    let totals = Seq::new(places.len(), |k: int| h[places[k]].timestamp - h[places[0]].timestamp);
    let average = (last - first) / n;
    assert forall|k: int| 0 <= k < gaps.len() implies if (#[trigger] gaps[k]) > 0 {
        totals[k + 1] == totals[k] + gaps[k] && counts[k + 1] == counts[k] + 1
    } else {
        totals[k + 1] == totals[k] && counts[k + 1] == counts[k]
    } by {}
    assert(n * average <= last - first < n * (average + 1)) by (nonlinear_arith)
        requires
            n > 0,
            average == (last - first) / n,
    ;
    assert(totals[m] == last - first);
    predictions_average_the_gaps(h, task, places, gaps, totals, counts, average);
    assert(average >= 86_400) by (nonlinear_arith)
        requires
            n > 0,
            n * 86_400 <= last - first,
            last - first < n * (average + 1),
    ;
    assert(average <= 157_680_000) by (nonlinear_arith)
        requires
            n > 0,
            n * average <= last - first,
            last - first <= n * 157_680_000,
    ;
}

/// Services at a constant distance of a day to five years predict the next one at that distance,
/// however many there are.
pub proof fn steady_services_predict_their_distance(
    h: Seq<RecordView>,
    task: Symbol,
    places: Seq<int>,
    start: u64,
    d: u64,
)
    requires
        task != (Symbol { head: 0x58464552, tail: 0 }),
        forall|k: int|
            0 <= k < places.len() ==> 0 <= #[trigger] places[k] < h.len()
                && h[places[k]].task_type == task && h[places[k]].timestamp == start + k * d,
        forall|k: int, l: int| 0 <= k < l < places.len() ==> places[k] < places[l],
        forall|i: int|
            0 <= i < h.len() && (#[trigger] h[i]).task_type == task ==> places.contains(i),
        places.len() >= 2,
        86_400 <= d <= 157_680_000,
        start + places.len() * d <= u64::MAX,
    ensures
        prediction(h, task) == Ok::<u64, LifecycleError>((start + places.len() * d) as u64),
{
    let m = places.len() - 1;
    let gaps = Seq::new(m as nat, |k: int| d as int);
    let counts = Seq::new(places.len(), |k: int| k);
    let totals = Seq::new(places.len(), |k: int| k * d);
    assert forall|k: int| 0 <= k < gaps.len() implies #[trigger] gaps[k] == h[places[k
        + 1]].timestamp - h[places[k]].timestamp by {
        assert((k + 1) * d == k * d + d) by (nonlinear_arith);
    }
    assert forall|k: int| 0 <= k < gaps.len() implies if (#[trigger] gaps[k]) > 0 {
        totals[k + 1] == totals[k] + gaps[k] && counts[k + 1] == counts[k] + 1
    } else {
        totals[k + 1] == totals[k] && counts[k + 1] == counts[k]
    } by {
        assert((k + 1) * d == k * d + d) by (nonlinear_arith);
    }
    assert(0 * d == 0);
    assert(m * d < m * (d + 1)) by (nonlinear_arith)
        requires
            m > 0,
    ;
    assert((m + 1) * d == m * d + d) by (nonlinear_arith);
    assert(h[places[m]].timestamp == start + m * d);
    predictions_average_the_gaps(h, task, places, gaps, totals, counts, d as int);
}

proof fn lemma_cost_sum(h: Seq<RecordView>, sums: Seq<int>)
    requires
        sums.len() == h.len() + 1,
        sums[0] == 0,
        forall|i: int|
            0 <= i < h.len() ==> sums[i + 1] == sums[i] + match (#[trigger] h[i]).cost {
                Some(c) => c as int,
                None => 0,
            },
    ensures
        cost_sum(h) == sums[h.len() as int],
        cost_sum(h) >= 0,
    decreases h.len(),
{
    if h.len() > 0 {
        let t = h.drop_last();
        assert forall|i: int| 0 <= i < t.len() implies sums.drop_last()[i + 1]
            == sums.drop_last()[i] + match (#[trigger] t[i]).cost {
            Some(c) => c as int,
            None => 0,
        } by {
            assert(h[i] == t[i]);
        }
        lemma_cost_sum(t, sums.drop_last());
        assert(h[h.len() - 1] == h.last());
    }
}

/// The total cost is the sum of the costs that the records name, and the largest number of 64 bits
/// where it exceeds that. `sums` is the running sum.
pub proof fn costs_add_up(h: Seq<RecordView>, sums: Seq<int>)
    requires
        sums.len() == h.len() + 1,
        sums[0] == 0,
        forall|i: int|
            0 <= i < h.len() ==> sums[i + 1] == sums[i] + match (#[trigger] h[i]).cost {
                Some(c) => c as int,
                None => 0,
            },
    ensures
        capped64(cost_sum(h)) == if sums[h.len() as int] <= u64::MAX {
            sums[h.len() as int]
        } else {
            u64::MAX as int
        },
{
    lemma_cost_sum(h, sums);
}

/// The cost history holds the time and the cost of every record that names one, in order. `places`
/// are the places of those records.
pub proof fn cost_history_lists_the_costs(h: Seq<RecordView>, places: Seq<int>)
    requires
        forall|k: int|
            0 <= k < places.len() ==> 0 <= #[trigger] places[k] < h.len()
                && h[places[k]].cost is Some,
        forall|k: int, l: int| 0 <= k < l < places.len() ==> places[k] < places[l],
        forall|i: int|
            0 <= i < h.len() && (#[trigger] h[i]).cost is Some ==> places.contains(i),
    ensures
        h.filter(costed()).map_values(dated_cost()) == Seq::new(
            places.len(),
            |k: int| (h[places[k]].timestamp, h[places[k]].cost->0),
        ),
{
    lemma_filter_places(h, costed(), places);
    assert(h.filter(costed()).map_values(dated_cost()) =~= Seq::new(
        places.len(),
        |k: int| (h[places[k]].timestamp, h[places[k]].cost->0),
    ));
}

/// The average cost of a task type is that of the records of the type that name a cost, rounded
/// down, and 0 where there is none. `places` are their places and `sums` adds their costs up.
pub proof fn average_costs_are_averages(
    h: Seq<RecordView>,
    task: Symbol,
    places: Seq<int>,
    sums: Seq<int>,
    average: int,
)
    requires
        forall|k: int|
            0 <= k < places.len() ==> 0 <= #[trigger] places[k] < h.len()
                && h[places[k]].cost is Some && h[places[k]].task_type == task,
        forall|k: int, l: int| 0 <= k < l < places.len() ==> places[k] < places[l],
        forall|i: int|
            0 <= i < h.len() && (#[trigger] h[i]).cost is Some && h[i].task_type == task
                ==> places.contains(i),
        sums.len() == places.len() + 1,
        sums[0] == 0,
        forall|k: int|
            0 <= k < places.len() ==> sums[k + 1] == sums[k] + h[#[trigger] places[k]].cost->0,
        ({
            let n = places.len() as int;
            let total = if sums[n] <= u64::MAX {
                sums[n]
            } else {
                u64::MAX as int
            };
            n > 0 ==> n * average <= total < n * (average + 1)
        }),
    ensures
        places.len() == 0 ==> average_cost(h, task) == 0,
        places.len() > 0 ==> average_cost(h, task) == average,
{
    let p = costed_of_type(task);
    let named = Seq::new(places.len(), |k: int| h[places[k]]);
    lemma_filter_places(h, p, places);
    assert forall|i: int| 0 <= i < named.len() implies sums[i + 1] == sums[i] + match (
    #[trigger] named[i]).cost {
        Some(c) => c as int,
        None => 0,
    } by {
        assert(places[i] == places[i]);
    }
    lemma_cost_sum(named, sums);
    let n = places.len() as int;
    if n > 0 {
        let total = if sums[n] <= u64::MAX {
            sums[n]
        } else {
            u64::MAX as int
        };
        assert(n * average == average * n) by (nonlinear_arith);
        assert(n * (average + 1) == (average + 1) * n) by (nonlinear_arith);
        lemma_quotient(total, n, average);
        assert(0 <= average <= total) by (nonlinear_arith)
            requires
                total >= 0,
                n > 0,
                n * average <= total < n * (average + 1),
        ;
    }
}

/// The types of service of an asset are those of its records but for changes of owner, each once.
pub proof fn task_types_are_those_of_the_records(h: Seq<RecordView>, t: Symbol)
    ensures
        task_types(h).contains(t) <==> t != (Symbol { head: 0x58464552, tail: 0 }) && exists|i: int|
            0 <= i < h.len() && (#[trigger] h[i]).task_type == t,
        task_types(h).no_duplicates(),
{
    let f = h.filter(serviced());
    let types = f.map_values(|r: RecordView| r.task_type);
    lemma_distinct(types);
    lemma_filter_members(h, serviced());
    if task_types(h).contains(t) {
        assert(types.contains(t));
        let k = choose|k: int| 0 <= k < types.len() && types[k] == t;
        assert(f.contains(f[k]));
        let i = choose|i: int| 0 <= i < h.len() && h[i] == f[k];
        assert(h[i].task_type == t);
    }
    if t != (Symbol { head: 0x58464552, tail: 0 }) && exists|i: int|
        0 <= i < h.len() && (#[trigger] h[i]).task_type == t {
        let i = choose|i: int| 0 <= i < h.len() && (#[trigger] h[i]).task_type == t;
        assert(h.contains(h[i]));
        assert(f.contains(h[i]));
        let k = choose|k: int| 0 <= k < f.len() && f[k] == h[i];
        assert(types[k] == t);
        assert(types.contains(t));
    }
}

/// A filtered list holds the items that pass, and no others.
proof fn lemma_filter_members<T>(s: Seq<T>, p: spec_fn(T) -> bool)
    ensures
        forall|x: T| #[trigger] s.filter(p).contains(x) <==> s.contains(x) && p(x),
    decreases s.len(),
{
    reveal(Seq::filter);
    if s.len() > 0 {
        let t = s.drop_last();
        let f = t.filter(p);
        lemma_filter_members(t, p);
        assert forall|x: T| #[trigger] s.filter(p).contains(x) <==> s.contains(x) && p(x) by {
            if s.filter(p).contains(x) {
                let k = choose|k: int| 0 <= k < s.filter(p).len() && s.filter(p)[k] == x;
                if k < f.len() {
                    assert(f[k] == x);
                    assert(f.contains(x));
                    let i = choose|i: int| 0 <= i < t.len() && t[i] == x;
                    assert(s[i] == x);
                } else {
                    assert(s[s.len() - 1] == x);
                }
            }
            if s.contains(x) && p(x) {
                let i = choose|i: int| 0 <= i < s.len() && s[i] == x;
                if i < t.len() {
                    assert(t[i] == x);
                    assert(t.contains(x));
                    assert(f.contains(x));
                    let k = choose|k: int| 0 <= k < f.len() && f[k] == x;
                    assert(s.filter(p)[k] == x);
                } else {
                    assert(s.filter(p)[f.len() as int] == x);
                }
            }
        }
    }
}

/// A type is reported as overdue exactly if the asset has had that service and its prediction has
/// passed, with the predicted time.
pub proof fn alerts_name_what_is_overdue(h: Seq<RecordView>, now: u64, t: Symbol, due: u64)
    ensures
        overdue(h, task_types(h), now).contains((t, due)) <==> {
            &&& t != (Symbol { head: 0x58464552, tail: 0 })
            &&& exists|i: int| 0 <= i < h.len() && (#[trigger] h[i]).task_type == t
            &&& prediction(h, t) == Ok::<u64, LifecycleError>(due)
            &&& now > due
        },
{
    let list = overdue(h, task_types(h), now);
    task_types_are_those_of_the_records(h, t);
    alerts_are_overdue(h, task_types(h), now);
    if list.contains((t, due)) {
        let k = choose|k: int| 0 <= k < list.len() && list[k] == (t, due);
        assert(task_types(h).contains(list[k].0));
    }
    if task_types(h).contains(t) && prediction(h, t) == Ok::<u64, LifecycleError>(due) && now
        > due {
        overdue_types_raise_alerts(h, task_types(h), now, t);
    }
}

/// Two records are reported as duplicates exactly if neither is a change of owner, they have the
/// same task type and engineer, and neither is more than the window later than the other; the
/// earlier record of the history comes first.
pub proof fn duplicates_lie_within_the_window(h: Seq<RecordView>, window: u64, pair: (u64, u64))
    ensures
        similar_pairs(h, h.len() as int, window).contains(pair) <==> exists|i: int, k: int|
            0 <= i < k < h.len() && (#[trigger] h[i]).task_type == (#[trigger] h[k]).task_type
                && h[i].task_type != (Symbol { head: 0x58464552, tail: 0 }) && h[i].engineer
                == h[k].engineer && h[i].timestamp <= h[k].timestamp + window && h[k].timestamp
                <= h[i].timestamp + window && pair.0 == h[i].timestamp && pair.1
                == h[k].timestamp,
{
    duplicates_are_the_similar_pairs(h, window, pair);
    if exists|i: int, k: int|
        0 <= i < k < h.len() && #[trigger] similar(h[i], h[k], window) && pair == (
            h[i].timestamp,
            h[k].timestamp,
        ) {
        let (i, k) = choose|i: int, k: int|
            0 <= i < k < h.len() && #[trigger] similar(h[i], h[k], window) && pair == (
                h[i].timestamp,
                h[k].timestamp,
            );
        assert(h[i].task_type == h[k].task_type);
    }
    if exists|i: int, k: int|
        0 <= i < k < h.len() && (#[trigger] h[i]).task_type == (#[trigger] h[k]).task_type
            && h[i].task_type != (Symbol { head: 0x58464552, tail: 0 }) && h[i].engineer
            == h[k].engineer && h[i].timestamp <= h[k].timestamp + window && h[k].timestamp
            <= h[i].timestamp + window && pair.0 == h[i].timestamp && pair.1 == h[k].timestamp {
        let (i, k) = choose|i: int, k: int|
            0 <= i < k < h.len() && (#[trigger] h[i]).task_type == (#[trigger] h[k]).task_type
                && h[i].task_type != (Symbol { head: 0x58464552, tail: 0 }) && h[i].engineer
                == h[k].engineer && h[i].timestamp <= h[k].timestamp + window && h[k].timestamp
                <= h[i].timestamp + window && pair.0 == h[i].timestamp && pair.1
                == h[k].timestamp;
        assert(similar(h[i], h[k], window));
    }
}

/// A list without repetitions holds the first occurrences, in order. `places` are their places.
pub proof fn distinct_keeps_first_occurrences<T>(s: Seq<T>, places: Seq<int>)
    requires
        forall|k: int|
            0 <= k < places.len() ==> 0 <= #[trigger] places[k] < s.len() && !s.take(
                places[k],
            ).contains(s[places[k]]),
        forall|k: int, l: int| 0 <= k < l < places.len() ==> places[k] < places[l],
        forall|i: int|
            0 <= i < s.len() && !(#[trigger] s.take(i)).contains(s[i]) ==> places.contains(i),
    ensures
        distinct(s) == Seq::new(places.len(), |k: int| s[places[k]]),
    decreases s.len(),
{
    let all = Seq::new(places.len(), |k: int| s[places[k]]);
    if s.len() == 0 {
        if places.len() > 0 {
            assert(0 <= places[0] < s.len());
        }
        assert(distinct(s) =~= all);
    } else {
        let n = s.len() - 1;
        let b = s.drop_last();
        assert(s.take(n) =~= b);
        if b.contains(s[n]) {
            lemma_first_occurrences(s, places, places);
            distinct_keeps_first_occurrences(b, places);
            lemma_distinct(b);
            assert(distinct(b).contains(s[n]));
        } else {
            assert(places.contains(n));
            let k = choose|k: int| 0 <= k < places.len() && places[k] == n;
            if k < places.len() - 1 {
                assert(places[k] < places[places.len() - 1]);
            }
            lemma_first_occurrences(s, places, places.drop_last());
            distinct_keeps_first_occurrences(b, places.drop_last());
            lemma_distinct(b);
            assert(!distinct(b).contains(s[n]));
        }
        assert(distinct(s) =~= all);
    }
}

/// The first occurrences in a list without its last item are those in the list but for its last.
proof fn lemma_first_occurrences<T>(s: Seq<T>, places: Seq<int>, rest: Seq<int>)
    requires
        s.len() > 0,
        forall|k: int|
            0 <= k < places.len() ==> 0 <= #[trigger] places[k] < s.len() && !s.take(
                places[k],
            ).contains(s[places[k]]),
        forall|k: int, l: int| 0 <= k < l < places.len() ==> places[k] < places[l],
        forall|i: int|
            0 <= i < s.len() && !(#[trigger] s.take(i)).contains(s[i]) ==> places.contains(i),
        if s.drop_last().contains(s.last()) {
            rest == places
        } else {
            places.len() > 0 && places.last() == s.len() - 1 && rest == places.drop_last()
        },
    ensures
        forall|k: int|
            0 <= k < rest.len() ==> 0 <= #[trigger] rest[k] < s.drop_last().len()
                && !s.drop_last().take(rest[k]).contains(s.drop_last()[rest[k]]),
        forall|i: int|
            0 <= i < s.drop_last().len() && !(#[trigger] s.drop_last().take(i)).contains(
                s.drop_last()[i],
            ) ==> rest.contains(i),
{
    let n = s.len() - 1;
    let b = s.drop_last();
    assert(s.take(n) =~= b);
    assert forall|k: int| 0 <= k < rest.len() implies 0 <= #[trigger] rest[k] < b.len()
        && !b.take(rest[k]).contains(b[rest[k]]) by {
        let p = places[k];
        assert(rest[k] == p);
        if b.contains(s.last()) {
            if p == n {
                assert(!s.take(p).contains(s[p]));
            }
        } else {
            assert(places[k] < places[places.len() - 1]);
        }
        assert(b.take(p) =~= s.take(p));
    }
    assert forall|i: int| 0 <= i < b.len() && !(#[trigger] b.take(i)).contains(
        b[i],
    ) implies rest.contains(i) by {
        assert(b.take(i) =~= s.take(i));
        assert(!s.take(i).contains(s[i]));
        let k = choose|k: int| 0 <= k < places.len() && places[k] == i;
        assert(rest[k] == i);
    }
}

/// The types of service of an asset come in the order in which it had them first. `services` are
/// the places of the records that are no change of owner, `types` their task types, and `firsts`
/// the places among those of the first of each type.
pub proof fn task_types_come_in_order(
    h: Seq<RecordView>,
    services: Seq<int>,
    types: Seq<Symbol>,
    firsts: Seq<int>,
)
    requires
        forall|k: int|
            0 <= k < services.len() ==> 0 <= #[trigger] services[k] < h.len()
                && h[services[k]].task_type != (Symbol { head: 0x58464552, tail: 0 }),
        forall|k: int, l: int| 0 <= k < l < services.len() ==> services[k] < services[l],
        forall|i: int|
            0 <= i < h.len() && (#[trigger] h[i]).task_type != (Symbol {
                head: 0x58464552,
                tail: 0,
            }) ==> services.contains(i),
        types == Seq::new(services.len(), |k: int| h[services[k]].task_type),
        forall|k: int|
            0 <= k < firsts.len() ==> 0 <= #[trigger] firsts[k] < types.len() && !types.take(
                firsts[k],
            ).contains(types[firsts[k]]),
        forall|k: int, l: int| 0 <= k < l < firsts.len() ==> firsts[k] < firsts[l],
        forall|i: int|
            0 <= i < types.len() && !(#[trigger] types.take(i)).contains(types[i])
                ==> firsts.contains(i),
    ensures
        task_types(h) == Seq::new(firsts.len(), |k: int| types[firsts[k]]),
{
    lemma_filter_places(h, serviced(), services);
    assert(h.filter(serviced()).map_values(|r: RecordView| r.task_type) =~= types);
    distinct_keeps_first_occurrences(types, firsts);
}

/// The alerts come in the order of the types. `places` are the places of the overdue types.
pub proof fn alerts_come_in_order(
    h: Seq<RecordView>,
    types: Seq<Symbol>,
    now: u64,
    places: Seq<int>,
)
    requires
        forall|k: int|
            0 <= k < places.len() ==> 0 <= #[trigger] places[k] < types.len() && prediction(
                h,
                types[places[k]],
            ) is Ok && prediction(h, types[places[k]])->Ok_0 < now,
        forall|k: int, l: int| 0 <= k < l < places.len() ==> places[k] < places[l],
        forall|i: int|
            0 <= i < types.len() && prediction(h, #[trigger] types[i]) is Ok && prediction(
                h,
                types[i],
            )->Ok_0 < now ==> places.contains(i),
    ensures
        overdue(h, types, now) == Seq::new(
            places.len(),
            |k: int| (types[places[k]], prediction(h, types[places[k]])->Ok_0),
        ),
    decreases types.len(),
{
    let all = Seq::new(
        places.len(),
        |k: int| (types[places[k]], prediction(h, types[places[k]])->Ok_0),
    );
    if types.len() == 0 {
        if places.len() > 0 {
            assert(0 <= places[0] < types.len());
        }
        assert(overdue(h, types, now) =~= all);
    } else {
        let n = types.len() - 1;
        let b = types.drop_last();
        let late = prediction(h, types[n]) is Ok && prediction(h, types[n])->Ok_0 < now;
        let rest = if late {
            places.drop_last()
        } else {
            places
        };
        if late {
            assert(places.contains(n));
            let k = choose|k: int| 0 <= k < places.len() && places[k] == n;
            if k < places.len() - 1 {
                assert(places[k] < places[places.len() - 1]);
            }
        }
        assert forall|k: int| 0 <= k < rest.len() implies 0 <= #[trigger] rest[k] < b.len()
            && prediction(h, b[rest[k]]) is Ok && prediction(h, b[rest[k]])->Ok_0 < now by {
            assert(rest[k] == places[k]);
            if late {
                assert(places[k] < places[places.len() - 1]);
            }
        }
        assert forall|i: int|
            0 <= i < b.len() && prediction(h, #[trigger] b[i]) is Ok && prediction(h, b[i])->Ok_0
                < now implies rest.contains(i) by {
            assert(types[i] == b[i]);
            let k = choose|k: int| 0 <= k < places.len() && places[k] == i;
            assert(rest[k] == i);
        }
        alerts_come_in_order(h, b, now, rest);
        assert(overdue(h, types, now) =~= all);
    }
}

/// The pairs that are reported as duplicates come in the order of their first record, and then of
/// their second, each once. `firsts` and `seconds` are the places of the two records of the pairs.
pub proof fn duplicates_come_in_order(
    h: Seq<RecordView>,
    window: u64,
    firsts: Seq<int>,
    seconds: Seq<int>,
)
    requires
        firsts.len() == seconds.len(),
        forall|x: int|
            0 <= x < firsts.len() ==> 0 <= #[trigger] firsts[x] < seconds[x] < h.len() && similar(
                h[firsts[x]],
                h[seconds[x]],
                window,
            ),
        forall|x: int, y: int|
            0 <= x < y < firsts.len() ==> firsts[x] < firsts[y] || firsts[x] == firsts[y]
                && seconds[x] < seconds[y],
        forall|i: int, k: int|
            0 <= i < k < h.len() && #[trigger] similar(h[i], h[k], window) ==> exists|x: int|
                0 <= x < firsts.len() && #[trigger] firsts[x] == i && seconds[x] == k,
    ensures
        similar_pairs(h, h.len() as int, window) == Seq::new(
            firsts.len(),
            |x: int| (h[firsts[x]].timestamp, h[seconds[x]].timestamp),
        ),
{
    let n = h.len() as int;
    lemma_pairs_in_order(h, window, firsts, seconds, n, n);
    assert(similar_to(h, n, n, window) =~= Seq::empty());
    assert(similar_pairs(h, n, window) + similar_to(h, n, n, window) =~= similar_pairs(
        h,
        n,
        window,
    ));
}

proof fn lemma_pairs_in_order(
    h: Seq<RecordView>,
    window: u64,
    firsts: Seq<int>,
    seconds: Seq<int>,
    n: int,
    j: int,
)
    requires
        0 <= n <= h.len(),
        0 <= j <= h.len(),
        firsts.len() == seconds.len(),
        forall|x: int|
            0 <= x < firsts.len() ==> 0 <= #[trigger] firsts[x] < seconds[x] < h.len() && similar(
                h[firsts[x]],
                h[seconds[x]],
                window,
            ) && (firsts[x] < n || firsts[x] == n && seconds[x] < j),
        forall|x: int, y: int|
            0 <= x < y < firsts.len() ==> firsts[x] < firsts[y] || firsts[x] == firsts[y]
                && seconds[x] < seconds[y],
        forall|i: int, k: int|
            0 <= i < k < h.len() && (i < n || i == n && k < j) && #[trigger] similar(
                h[i],
                h[k],
                window,
            ) ==> exists|x: int|
                0 <= x < firsts.len() && #[trigger] firsts[x] == i && seconds[x] == k,
    ensures
        similar_pairs(h, n, window) + similar_to(h, n, j, window) == Seq::new(
            firsts.len(),
            |x: int| (h[firsts[x]].timestamp, h[seconds[x]].timestamp),
        ),
    decreases n, j,
{
    let all = Seq::new(
        firsts.len(),
        |x: int| (h[firsts[x]].timestamp, h[seconds[x]].timestamp),
    );
    let here = similar_pairs(h, n, window) + similar_to(h, n, j, window);
    if j <= n + 1 {
        assert(similar_to(h, n, j, window) =~= Seq::empty());
        if n == 0 {
            if firsts.len() > 0 {
                assert(0 <= firsts[0]);
            }
            assert(here =~= all);
        } else {
            let len = h.len() as int;
            assert forall|x: int| 0 <= x < firsts.len() implies 0 <= #[trigger] firsts[x]
                < seconds[x] < h.len() && similar(h[firsts[x]], h[seconds[x]], window) && (
            firsts[x] < n - 1 || firsts[x] == n - 1 && seconds[x] < len) by {}
            lemma_pairs_in_order(h, window, firsts, seconds, n - 1, len);
            assert(here =~= all);
        }
    } else {
        let before = similar_to(h, n, j - 1, window);
        if n < h.len() && similar(h[n], h[j - 1], window) {
            let m = firsts.len() - 1;
            let x = choose|x: int|
                0 <= x < firsts.len() && #[trigger] firsts[x] == n && seconds[x] == j - 1;
            assert(0 <= x < firsts.len() && firsts[x] == n && seconds[x] == j - 1);
            if x < m {
                assert(firsts[x] < firsts[m] || firsts[x] == firsts[m] && seconds[x] < seconds[m]);
            }
            let (f, g) = (firsts.drop_last(), seconds.drop_last());
            assert forall|y: int| 0 <= y < f.len() implies 0 <= #[trigger] f[y] < g[y] < h.len()
                && similar(h[f[y]], h[g[y]], window) && (f[y] < n || f[y] == n && g[y] < j
                - 1) by {
                assert(f[y] == firsts[y]);
                assert(firsts[y] < firsts[m] || firsts[y] == firsts[m] && seconds[y] < seconds[m]);
            }
            assert forall|i: int, k: int|
                0 <= i < k < h.len() && (i < n || i == n && k < j - 1) && #[trigger] similar(
                    h[i],
                    h[k],
                    window,
                ) implies exists|y: int|
                0 <= y < f.len() && #[trigger] f[y] == i && g[y] == k by {
                let y = choose|y: int|
                    0 <= y < firsts.len() && #[trigger] firsts[y] == i && seconds[y] == k;
                assert(0 <= y < firsts.len() && firsts[y] == i && seconds[y] == k);
                assert(y != m);
                assert(f[y] == i && g[y] == k);
            }
            lemma_pairs_in_order(h, window, f, g, n, j - 1);
            assert(here =~= (similar_pairs(h, n, window) + before).push(
                (h[n].timestamp, h[j - 1].timestamp),
            ));
            assert(here =~= all);
        } else {
            assert forall|x: int| 0 <= x < firsts.len() implies 0 <= #[trigger] firsts[x]
                < seconds[x] < h.len() && similar(h[firsts[x]], h[seconds[x]], window) && (
            firsts[x] < n || firsts[x] == n && seconds[x] < j - 1) by {
                if firsts[x] == n && seconds[x] == j - 1 {
                    assert(similar(h[n], h[j - 1], window));
                }
            }
            lemma_pairs_in_order(h, window, firsts, seconds, n, j - 1);
            if n == h.len() {
                assert(false);
            }
            assert(here =~= all);
        }
    }
}

proof fn lemma_first_of(bytes: Seq<u8>, from: int, to: int, class: Class)
    requires
        0 <= from <= to <= bytes.len(),
        forall|i: int| from <= i < to ==> !in_class(#[trigger] bytes[i], class),
        to == bytes.len() || in_class(bytes[to], class),
    ensures
        first_of(bytes, from, class) == to,
    decreases to - from,
{
    if from < to {
        lemma_first_of(bytes, from + 1, to, class);
    }
}

proof fn lemma_first_key(bytes: Seq<u8>, key: Seq<u8>, from: int, at: int)
    requires
        0 <= from <= at,
        at + key.len() <= bytes.len(),
        bytes.subrange(at, at + key.len()) == key,
        forall|i: int| from <= i < at ==> #[trigger] bytes.subrange(i, i + key.len()) != key,
    ensures
        first_key(bytes, key, from) == Some(at),
    decreases at - from,
{
    if from < at {
        assert(bytes.subrange(from, from + key.len()) != key);
        lemma_first_key(bytes, key, from + 1, at);
    }
}

proof fn lemma_no_key(bytes: Seq<u8>, key: Seq<u8>, from: int)
    requires
        0 <= from,
        forall|i: int|
            from <= i <= bytes.len() - key.len() ==> #[trigger] bytes.subrange(i, i + key.len())
                != key,
    ensures
        first_key(bytes, key, from) is None,
    decreases bytes.len() - from + 1,
{
    if from + key.len() <= bytes.len() {
        assert(bytes.subrange(from, from + key.len()) != key);
        lemma_no_key(bytes, key, from + 1);
    }
}

proof fn lemma_decimal(digits: Seq<u8>, values: Seq<int>)
    requires
        values.len() == digits.len() + 1,
        values[0] == 0,
        forall|k: int| 0 <= k < digits.len() ==> 48 <= #[trigger] digits[k] <= 57,
        forall|k: int|
            0 <= k < digits.len() ==> values[k + 1] == values[k] * 10 + (#[trigger] digits[k])
                - 48,
    ensures
        decimal(digits) == values[digits.len() as int],
    decreases digits.len(),
{
    if digits.len() > 0 {
        let d = digits.drop_last();
        assert forall|k: int| 0 <= k < d.len() implies values.drop_last()[k + 1]
            == values.drop_last()[k] * 10 + (#[trigger] d[k]) - 48 by {
            assert(digits[k] == d[k]);
        }
        assert forall|k: int| 0 <= k < d.len() implies 48 <= #[trigger] d[k] <= 57 by {
            assert(digits[k] == d[k]);
        }
        lemma_decimal(d, values.drop_last());
        assert(digits[digits.len() - 1] == digits.last());
    }
}

/// The number for a key is spelled by the first run of digits behind the first colon behind the
/// first occurrence of the key, most significant digit first, and is the largest of 32 bits where
/// it exceeds that. The key stands at `at`, the colon at `colon`, and the run goes from `start` up
/// to `end`; `values` are the values of its beginnings.
pub proof fn numbers_stand_behind_their_key(
    text: Seq<u8>,
    key: Seq<u8>,
    at: int,
    colon: int,
    start: int,
    end: int,
    values: Seq<int>,
)
    requires
        key.len() > 0,
        0 <= at,
        at + key.len() <= colon < start < end <= text.len(),
        text.subrange(at, at + key.len()) == key,
        forall|i: int| 0 <= i < at ==> #[trigger] text.subrange(i, i + key.len()) != key,
        text[colon] == 58,
        forall|i: int| at + key.len() <= i < colon ==> #[trigger] text[i] != 58,
        forall|i: int| colon < i < start ==> !(48 <= #[trigger] text[i] <= 57),
        forall|i: int| start <= i < end ==> 48 <= #[trigger] text[i] <= 57,
        end == text.len() || !(48 <= text[end] <= 57),
        values.len() == end - start + 1,
        values[0] == 0,
        forall|i: int|
            start <= i < end ==> values[i - start + 1] == values[i - start] * 10 + (
            #[trigger] text[i]) - 48,
    ensures
        number_for(text, key) == Some(
            if values[end - start] <= u32::MAX {
                values[end - start] as u32
            } else {
                u32::MAX
            },
        ),
{
    lemma_first_key(text, key, 0, at);
    lemma_first_of(text, at + key.len(), colon, Class::Colon);
    lemma_first_of(text, colon + 1, start, Class::Digit);
    lemma_first_of(text, start, end, Class::NonDigit);
    let digits = text.subrange(start, end);
    assert forall|k: int| 0 <= k < digits.len() implies 48 <= #[trigger] digits[k] <= 57 by {
        assert(text[start + k] == digits[k]);
    }
    assert forall|k: int| 0 <= k < digits.len() implies values[k + 1] == values[k] * 10 + (
    #[trigger] digits[k]) - 48 by {
        assert(text[start + k] == digits[k]);
    }
    lemma_decimal(digits, values);
}

/// There is no number for a key that does not occur, and none where no digit stands behind the
/// first colon behind its first occurrence.
pub proof fn numbers_need_key_colon_and_digit(text: Seq<u8>, key: Seq<u8>, at: int, colon: int)
    requires
        0 <= at,
        at + key.len() <= text.len() ==> text.subrange(at, at + key.len()) == key,
        forall|i: int|
            0 <= i < at && i + key.len() <= text.len() ==> #[trigger] text.subrange(
                i,
                i + key.len(),
            ) != key,
        forall|i: int| at + key.len() <= i < colon && i < text.len() ==> #[trigger] text[i] != 58,
        at + key.len() <= colon,
        colon < text.len() ==> text[colon] == 58,
        forall|i: int| colon < i < text.len() ==> !(48 <= #[trigger] text[i] <= 57),
    ensures
        number_for(text, key) is None,
{
    if key.len() > 0 && key.len() < text.len() {
        if at + key.len() > text.len() {
            lemma_no_key(text, key, 0);
        } else {
            lemma_first_key(text, key, 0, at);
            let n = text.len() as int;
            if colon < n {
                lemma_first_of(text, at + key.len(), colon, Class::Colon);
                lemma_first_of(text, colon + 1, n, Class::Digit);
            } else {
                lemma_first_of(text, at + key.len(), n, Class::Colon);
            }
        }
    }
}

/// Frequency weights are read from the numbers for `low`, `medium` and `high`, which have to be
/// given, and from those for the thresholds and the window, which are 4, 12 and 365 where they
/// are not; they are acceptable where none of them but the high threshold is zero and the high
/// threshold is not below the medium one.
pub proof fn weights_are_read_by_name(json: Seq<u8>)
    ensures
        ({
            let low = number_for(json, "\"low\"".spec_bytes());
            let medium = number_for(json, "\"medium\"".spec_bytes());
            let high = number_for(json, "\"high\"".spec_bytes());
            let from = match number_for(json, "\"medium_threshold\"".spec_bytes()) {
                Some(x) => x,
                None => 4u32,
            };
            let top = match number_for(json, "\"high_threshold\"".spec_bytes()) {
                Some(x) => x,
                None => 12u32,
            };
            let days = match number_for(json, "\"window_days\"".spec_bytes()) {
                Some(x) => x,
                None => 365u32,
            };
            &&& weights_in(json) is Some <==> low is Some && medium is Some && high is Some
                && low->0 > 0 && medium->0 > 0 && high->0 > 0 && days > 0 && 0 < from <= top
            &&& weights_in(json) matches Some(w) ==> w.low == low->0 && w.medium == medium->0
                && w.high == high->0 && w.medium_threshold == from && w.high_threshold == top
                && w.window_days == days
        }),
{
}

/// The latest record is one that no record is later than, and that every record before it is
/// earlier than; so there is one wherever there is a record, and only one.
pub proof fn the_latest_record_is_the_latest(h: Seq<RecordView>, i: int, k: int)
    requires
        is_latest(h, i),
        0 <= k < h.len(),
    ensures
        0 <= i < h.len(),
        h[k].timestamp <= h[i].timestamp,
        k < i ==> h[k].timestamp < h[i].timestamp,
        is_latest(h, k) ==> k == i,
{
}

/// The last service date of a snapshot is the latest time of a record, and 0 where there is none.
pub proof fn snapshots_date_the_last_service(h: Seq<RecordView>, t: u64, k: int)
    requires
        is_last_service(h, t),
    ensures
        h.len() == 0 ==> t == 0,
        0 <= k < h.len() ==> h[k].timestamp <= t,
        h.len() > 0 ==> exists|i: int| 0 <= i < h.len() && (#[trigger] h[i]).timestamp == t,
{
    if h.len() > 0 {
        let i = choose|i: int| #[trigger] is_latest(h, i) && t == h[i].timestamp;
        assert(h[i].timestamp == t);
    }
}

/// A new score leaves the earlier entries of the list of scores as they are, but for one of the
/// same time, which it replaces, and for the oldest where the list is full; and so with the list of
/// valuations.
pub proof fn new_scores_keep_the_earlier_ones(
    a: AssetView,
    score: u32,
    now: u64,
    max: u32,
    i: int,
)
    requires
        max > 0,
    ensures
        ({
            let b = scored(a, score, now, max);
            let (x, y) = (a.score_history, b.score_history);
            let kept = if x.len() > 0 && x[x.len() - 1].timestamp == now {
                x.len() - 1
            } else {
                x.len() as int
            };
            let gone = if kept + 1 > max {
                kept + 1 - max
            } else {
                0
            };
            &&& y.len() == kept + 1 - gone
            &&& y[y.len() - 1].score == score && y[y.len() - 1].timestamp == now
            &&& 0 <= i < y.len() - 1 ==> y[i] == x[i + gone]
        }),
        ({
            let b = scored(a, score, now, max);
            let (x, y) = (a.valuations, b.valuations);
            let kept = if x.len() > 0 && x[x.len() - 1].0 == now {
                x.len() - 1
            } else {
                x.len() as int
            };
            let gone = if kept + 1 > max {
                kept + 1 - max
            } else {
                0
            };
            &&& y.len() == kept + 1 - gone
            &&& y[y.len() - 1] == (now, score as u64)
            &&& 0 <= i < y.len() - 1 ==> y[i] == x[i + gone]
        }),
        ({
            let b = scored(a, score, now, max);
            &&& b.score == score && b.last_update == Some(now)
            &&& b == (AssetView {
                score: b.score,
                last_update: b.last_update,
                score_history: b.score_history,
                valuations: b.valuations,
                ..a
            })
        }),
{
}

} // verus!
