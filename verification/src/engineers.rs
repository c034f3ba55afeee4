//! What is kept of engineers: the assets they have worked on, and how often they submit.

use vstd::prelude::*;

use crate::arith::{capped, monus};
use crate::lists::{is_listed, lemma_filter_distinct, other_than, without};
use crate::types::{Engineer, EngineerView};

verus! {

/// Width, in seconds, of the window in which submissions are counted.
pub const SUBMISSION_WINDOW_SECS: u64 = 3_600;

/// How many submissions count at time `now`: none once the window is over.
pub open spec fn counted(window: Option<(u64, u32)>, now: u64) -> u32 {
    match window {
        Some(w) => if monus(now as int, w.0 as int) >= SUBMISSION_WINDOW_SECS {
            0
        } else {
            w.1
        },
        None => 0,
    }
}

/// Whether one more submission at time `now` stays within `max_per_hour`, where zero stands for
/// no limit.
pub open spec fn within_rate(window: Option<(u64, u32)>, now: u64, max_per_hour: u32) -> bool {
    max_per_hour == 0 || counted(window, now) < max_per_hour
}

/// The window after one more submission at time `now`: a new one where the last is over.
pub open spec fn window_after(window: Option<(u64, u32)>, now: u64) -> (u64, u32) {
    match window {
        Some(w) => if monus(now as int, w.0 as int) >= SUBMISSION_WINDOW_SECS {
            (now, 1)
        } else {
            (w.0, capped(w.1 + 1))
        },
        None => (now, 1),
    }
}

/// Whether one more submission at time `now` stays within `max_per_hour`.
pub fn engineer_within_submission_rate(e: &Engineer, now: u64, max_per_hour: u32) -> (b: bool)
    ensures
        b == within_rate(e@.window, now, max_per_hour),
{
    if max_per_hour == 0 {
        return true;
    }
    let count: u32 = match e.window {
        Some(w) => if now.saturating_sub(w.0) >= SUBMISSION_WINDOW_SECS {
            0
        } else {
            w.1
        },
        None => 0,
    };
    count < max_per_hour
}

/// Counts one more submission at time `now`.
pub fn record_engineer_submission(e: &mut Engineer, now: u64)
    ensures
        final(e)@ == (EngineerView { window: Some(window_after(old(e)@.window, now)), ..old(e)@ }),
{
    let next: (u64, u32) = match e.window {
        Some(w) => if now.saturating_sub(w.0) >= SUBMISSION_WINDOW_SECS {
            (now, 1)
        } else {
            (w.0, w.1.saturating_add(1))
        },
        None => (now, 1),
    };
    e.window = Some(next);
}

/// The assets after the engineer has worked on one more: a new one is appended, and the oldest
/// makes room where `max_history` is reached.
pub open spec fn assets_with(assets: Seq<u64>, asset_id: u64, max_history: u32) -> Seq<u64> {
    if assets.contains(asset_id) {
        assets
    } else if max_history > 0 && assets.len() >= max_history {
        assets.skip(1).push(asset_id)
    } else {
        assets.push(asset_id)
    }
}

/// A list of distinct assets stays one, and can still be counted.
pub proof fn lemma_assets_with(assets: Seq<u64>, asset_id: u64, max_history: u32)
    requires
        assets.no_duplicates(),
        assets.len() <= u32::MAX,
        max_history > 0,
    ensures
        assets_with(assets, asset_id, max_history).no_duplicates(),
        assets_with(assets, asset_id, max_history).len() <= u32::MAX,
        assets_with(assets, asset_id, max_history).contains(asset_id),
{
    let r = assets_with(assets, asset_id, max_history);
    if !assets.contains(asset_id) {
        assert(r[r.len() - 1] == asset_id);
        assert forall|i: int, j: int| 0 <= i < j < r.len() implies r[i] != r[j] by {
            if assets.len() >= max_history {
                assert(r[i] == assets[i + 1]);
                if j < r.len() - 1 {
                    assert(r[j] == assets[j + 1]);
                } else {
                    assert(assets.contains(assets[i + 1]));
                }
            } else {
                assert(r[i] == assets[i]);
                if j < r.len() - 1 {
                    assert(r[j] == assets[j]);
                } else {
                    assert(assets.contains(assets[i]));
                }
            }
        }
    }
}

/// Notes that the engineer has worked on the asset.
pub fn engineer_history_add(e: &mut Engineer, asset_id: u64, max_history: u32)
    ensures
        final(e)@ == (EngineerView {
            assets: assets_with(old(e)@.assets, asset_id, max_history),
            ..old(e)@
        }),
{
    if !is_listed(&e.assets, asset_id) {
        if max_history > 0 && e.assets.len() as u64 >= max_history as u64 {
            let _ = e.assets.remove(0);
            assert(e.assets@ =~= old(e)@.assets.skip(1));
        }
        e.assets.push(asset_id);
    }
}

/// The engineer without the asset among those worked on.
pub open spec fn forgets(e: EngineerView, asset_id: u64) -> EngineerView {
    EngineerView { assets: e.assets.filter(other_than(asset_id)), ..e }
}

/// Takes the asset from those that the engineer has worked on.
pub fn engineer_history_remove(e: &mut Engineer, asset_id: u64)
    ensures
        final(e)@ == forgets(old(e)@, asset_id),
{
    e.assets = without(&e.assets, asset_id);
}

/// What is left of a list of distinct items is one.
pub proof fn lemma_forgets_wf(e: EngineerView, asset_id: u64)
    requires
        e.wf(),
    ensures
        forgets(e, asset_id).wf(),
        !forgets(e, asset_id).assets.contains(asset_id),
        forall|x: u64|
            x != asset_id ==> (#[trigger] forgets(e, asset_id).assets.contains(x)
                <==> e.assets.contains(x)),
{
    lemma_filter_distinct(e.assets, other_than(asset_id));
}

} // verus!
