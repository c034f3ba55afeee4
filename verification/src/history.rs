//! What the maintenance history of an asset tells.

use vstd::prelude::*;

use crate::arith::{capped, capped64, monus};
use crate::errors::LifecycleError;
use crate::lists::{distinct, keep_last, lemma_filter_step, page, page_bounds, push_distinct};
use crate::names::{short_symbol, Address, Symbol};
use crate::types::{copy_records, lemma_records_push, records, MaintenanceRecord, RecordView};

verus! {

/// The text `XFER`: the task type of the record that marks a change of owner.
pub const XFER: u128 = 0x58464552;

/// Seconds in a day.
pub const DAY_SECS: u64 = 86_400;

/// The longest time, in seconds, to a predicted service: five years.
pub const MAX_INTERVAL_SECS: u64 = 157_680_000;

/// Whether the record marks a change of owner.
pub open spec fn is_transfer(r: RecordView) -> bool {
    r.task_type == short_symbol(XFER)
}

/// Whether the task type is that of the records that mark a change of owner.
pub fn is_transfer_type(task_type: Symbol) -> (b: bool)
    ensures
        b == (task_type == short_symbol(XFER)),
{
    task_type == Symbol::short(XFER)
}

/// The engineers of the records.
pub open spec fn engineers(h: Seq<RecordView>) -> Seq<Address> {
    h.map_values(|r: RecordView| r.engineer)
}

/// The engineers of the records from `from` up to `to`, each once, in order of first occurrence.
pub fn engineers_between(history: &Vec<MaintenanceRecord>, from: usize, to: usize) -> (r: Vec<
    Address,
>)
    requires
        from <= to <= history@.len(),
    ensures
        r@ == distinct(engineers(records(history@).subrange(from as int, to as int))),
{
    let ghost h = records(history@);
    let mut r: Vec<Address> = Vec::new();
    let mut i: usize = from;
    assert(engineers(h.subrange(from as int, from as int)) =~= Seq::empty());
    while i < to
        invariant
            from <= i <= to <= history@.len(),
            h == records(history@),
            r@ == distinct(engineers(h.subrange(from as int, i as int))),
        decreases to - i,
    {
        proof {
            let next = engineers(h.subrange(from as int, i + 1));
            assert(next.drop_last() =~= engineers(h.subrange(from as int, i as int)));
            assert(next.last() == history@[i as int].engineer);
        }
        push_distinct(&mut r, history[i].engineer);
        i += 1;
    }
    r
}

/// The last `max` records.
pub fn last_records(history: &Vec<MaintenanceRecord>, max: u32) -> (r: Vec<MaintenanceRecord>)
    ensures
        records(r@) == keep_last(records(history@), max as nat),
{
    let n: usize = history.len();
    let start: usize = if n as u64 > max as u64 {
        n - max as usize
    } else {
        0
    };
    let r = copy_records(history, start, n);
    assert(records(r@) =~= keep_last(records(history@), max as nat));
    r
}

/// The page of up to `limit` records from place `offset` on.
pub fn records_page(history: &Vec<MaintenanceRecord>, offset: u32, limit: u32) -> (r: Vec<
    MaintenanceRecord,
>)
    ensures
        records(r@) == page(records(history@), offset as nat, limit as nat),
{
    let b: (usize, usize) = page_bounds(history.len(), offset, limit);
    let r = copy_records(history, b.0, b.1);
    assert(records(r@) =~= page(records(history@), offset as nat, limit as nat));
    r
}

/// Tells the maintenance events since `cutoff` apart.
pub open spec fn since(cutoff: int) -> spec_fn(RecordView) -> bool {
    |r: RecordView| !is_transfer(r) && r.timestamp >= cutoff
}

/// The maintenance events of the last `window_days` days.
pub open spec fn recent(h: Seq<RecordView>, now: u64, window_days: u32) -> Seq<RecordView> {
    h.filter(since(monus(now as int, window_days * DAY_SECS)))
}

/// The number of maintenance events of the last `window_days` days.
pub fn recent_maintenance_count(
    history: &Vec<MaintenanceRecord>,
    now: u64,
    window_days: u32,
) -> (count: u32)
    ensures
        count == capped(recent(records(history@), now, window_days).len() as int),
{
    let cutoff: u64 = now.saturating_sub(window_days as u64 * DAY_SECS);
    let ghost h = records(history@);
    let ghost p = since(cutoff as int);
    let mut count: u32 = 0;
    let mut i: usize = 0;
    proof {
        reveal(Seq::filter);
        assert(h.take(0).filter(p) =~= Seq::empty());
    }
    while i < history.len()
        invariant
            i <= history@.len(),
            h == records(history@),
            p == since(cutoff as int),
            count == capped(h.take(i as int).filter(p).len() as int),
        decreases history@.len() - i,
    {
        proof {
            lemma_filter_step(h, i as int, p);
        }
        if !is_transfer_type(history[i].task_type) && history[i].timestamp >= cutoff {
            count = count.saturating_add(1);
        }
        i += 1;
    }
    assert(h.take(h.len() as int) =~= h);
    count
}

/// Tells the services of one type apart.
pub open spec fn of_type(task_type: Symbol) -> spec_fn(RecordView) -> bool {
    |r: RecordView| r.task_type == task_type && !is_transfer(r)
}

/// When the asset had services of the type.
pub open spec fn service_times(h: Seq<RecordView>, task_type: Symbol) -> Seq<u64> {
    h.filter(of_type(task_type)).map_values(|r: RecordView| r.timestamp)
}

/// When the asset had services of the type.
fn collect_service_times(history: &Vec<MaintenanceRecord>, task_type: Symbol) -> (times: Vec<u64>)
    ensures
        times@ == service_times(records(history@), task_type),
{
    let ghost h = records(history@);
    let ghost p = of_type(task_type);
    let ghost t = |r: RecordView| r.timestamp;
    let mut times: Vec<u64> = Vec::new();
    let mut i: usize = 0;
    proof {
        reveal(Seq::filter);
        assert(h.take(0).filter(p).map_values(t) =~= Seq::empty());
    }
    while i < history.len()
        invariant
            i <= history@.len(),
            h == records(history@),
            p == of_type(task_type),
            t == (|r: RecordView| r.timestamp),
            times@ == h.take(i as int).filter(p).map_values(t),
        decreases history@.len() - i,
    {
        proof {
            lemma_filter_step(h, i as int, p);
            let s = h.take(i as int).filter(p);
            assert(s.push(h[i as int]).map_values(t) =~= s.map_values(t).push(t(h[i as int])));
        }
        if history[i].task_type == task_type && !is_transfer_type(history[i].task_type) {
            times.push(history[i].timestamp);
        }
        i += 1;
    }
    assert(h.take(h.len() as int) =~= h);
    times
}

/// The times between consecutive services, added up.
pub open spec fn gap_total(times: Seq<u64>) -> int
    decreases times.len(),
{
    if times.len() < 2 {
        0
    } else {
        gap_total(times.drop_last()) + monus(
            times.last() as int,
            times[times.len() - 2] as int,
        )
    }
}

/// How many times between consecutive services are positive.
pub open spec fn gap_count(times: Seq<u64>) -> int
    decreases times.len(),
{
    if times.len() < 2 {
        0
    } else {
        gap_count(times.drop_last()) + if times.last() > times[times.len() - 2] {
            1int
        } else {
            0
        }
    }
}

/// The interval itself, or the nearest that lies between a day and five years.
pub open spec fn reasonable(interval: int) -> int {
    if interval < DAY_SECS {
        DAY_SECS as int
    } else if interval > MAX_INTERVAL_SECS {
        MAX_INTERVAL_SECS as int
    } else {
        interval
    }
}

/// When the next service of the type is due: as long after the last one as the average of the
/// positive times between consecutive ones. There has to be such a time, so at least two services
/// of the type.
pub open spec fn prediction(h: Seq<RecordView>, task_type: Symbol) -> Result<u64, LifecycleError> {
    let times = service_times(h, task_type);
    if gap_count(times) == 0 {
        Err(LifecycleError::InsufficientPredictionData)
    } else {
        Ok(
            capped64(
                times.last() + reasonable(capped64(gap_total(times)) as int / gap_count(times)),
            ),
        )
    }
}

/// When the next service of the type is due.
pub fn try_predict_next_service(history: &Vec<MaintenanceRecord>, task_type: Symbol) -> (r: Result<
    u64,
    LifecycleError,
>)
    ensures
        r == prediction(records(history@), task_type),
{
    let times: Vec<u64> = collect_service_times(history, task_type);
    if times.len() < 2 {
        return Err(LifecycleError::InsufficientPredictionData);
    }
    let mut total: u64 = 0;
    let mut count: u64 = 0;
    let mut i: usize = 1;
    while i < times.len()
        invariant
            1 <= i <= times@.len(),
            0 <= gap_total(times@.take(i as int)),
            total == capped64(gap_total(times@.take(i as int))),
            0 <= count <= i,
            count == gap_count(times@.take(i as int)),
        decreases times@.len() - i,
    {
        let interval: u64 = times[i].saturating_sub(times[i - 1]);
        assert(times@.take(i + 1).drop_last() =~= times@.take(i as int));
        if interval > 0 {
            total = total.saturating_add(interval);
            count = count + 1;
        }
        i += 1;
    }
    assert(times@.take(times@.len() as int) =~= times@);
    if count == 0 {
        return Err(LifecycleError::InsufficientPredictionData);
    }
    let average: u64 = total / count;
    let interval: u64 = if average < DAY_SECS {
        DAY_SECS
    } else if average > MAX_INTERVAL_SECS {
        MAX_INTERVAL_SECS
    } else {
        average
    };
    Ok(times[times.len() - 1].saturating_add(interval))
}

/// Tells maintenance events from changes of owner.
pub open spec fn serviced() -> spec_fn(RecordView) -> bool {
    |r: RecordView| !is_transfer(r)
}

/// The types of service that the asset has had, each once, in order of first occurrence.
pub open spec fn task_types(h: Seq<RecordView>) -> Seq<Symbol> {
    distinct(h.filter(serviced()).map_values(|r: RecordView| r.task_type))
}

/// Those of the types that are overdue, each with the time at which it was due.
pub open spec fn overdue(h: Seq<RecordView>, types: Seq<Symbol>, now: u64) -> Seq<(Symbol, u64)>
    decreases types.len(),
{
    if types.len() == 0 {
        Seq::empty()
    } else {
        let before = overdue(h, types.drop_last(), now);
        match prediction(h, types.last()) {
            Ok(due) => if now > due {
                before.push((types.last(), due))
            } else {
                before
            },
            Err(_) => before,
        }
    }
}

/// The types of service that the asset has had, each once, in order of first occurrence.
fn collect_task_types(history: &Vec<MaintenanceRecord>) -> (r: Vec<Symbol>)
    ensures
        r@ == task_types(records(history@)),
{
    let ghost h = records(history@);
    let ghost p = serviced();
    let ghost t = |r: RecordView| r.task_type;
    let mut r: Vec<Symbol> = Vec::new();
    let mut i: usize = 0;
    proof {
        reveal(Seq::filter);
        assert(h.take(0).filter(p).map_values(t) =~= Seq::empty());
    }
    while i < history.len()
        invariant
            i <= history@.len(),
            h == records(history@),
            p == serviced(),
            t == (|r: RecordView| r.task_type),
            r@ == distinct(h.take(i as int).filter(p).map_values(t)),
        decreases history@.len() - i,
    {
        proof {
            lemma_filter_step(h, i as int, p);
            let s = h.take(i as int).filter(p);
            let next = s.push(h[i as int]).map_values(t);
            assert(next.drop_last() =~= s.map_values(t));
            assert(next.last() == h[i as int].task_type);
        }
        if !is_transfer_type(history[i].task_type) {
            push_distinct(&mut r, history[i].task_type);
        }
        i += 1;
    }
    assert(h.take(h.len() as int) =~= h);
    r
}

/// The types of service that are overdue, each with the time at which it was due.
pub fn overdue_services(history: &Vec<MaintenanceRecord>, now: u64) -> (alerts: Vec<(Symbol, u64)>)
    ensures
        alerts@ == overdue(records(history@), task_types(records(history@)), now),
{
    let types: Vec<Symbol> = collect_task_types(history);
    let mut alerts: Vec<(Symbol, u64)> = Vec::new();
    let mut i: usize = 0;
    while i < types.len()
        invariant
            i <= types@.len(),
            alerts@ == overdue(records(history@), types@.take(i as int), now),
        decreases types@.len() - i,
    {
        assert(types@.take(i + 1).drop_last() =~= types@.take(i as int));
        if let Ok(due) = try_predict_next_service(history, types[i]) {
            if now > due {
                alerts.push((types[i], due));
            }
        }
        i += 1;
    }
    assert(types@.take(types@.len() as int) =~= types@);
    alerts
}

/// How far apart two points in time are.
pub open spec fn distance(a: u64, b: u64) -> int {
    if a > b {
        a - b
    } else {
        b - a
    }
}

/// Whether two records look like one event recorded twice.
pub open spec fn similar(a: RecordView, b: RecordView, window: u64) -> bool {
    &&& !is_transfer(a)
    &&& !is_transfer(b)
    &&& a.task_type == b.task_type
    &&& a.engineer == b.engineer
    &&& distance(a.timestamp, b.timestamp) <= window
}

/// The times of record `i` and of each similar record behind it and before place `j`.
pub open spec fn similar_to(h: Seq<RecordView>, i: int, j: int, window: u64) -> Seq<(u64, u64)>
    decreases j - i,
{
    if j <= i + 1 {
        Seq::empty()
    } else {
        let before = similar_to(h, i, j - 1, window);
        if similar(h[i], h[j - 1], window) {
            before.push((h[i].timestamp, h[j - 1].timestamp))
        } else {
            before
        }
    }
}

/// The times of all similar pairs of records whose first record stands before place `i`.
pub open spec fn similar_pairs(h: Seq<RecordView>, i: int, window: u64) -> Seq<(u64, u64)>
    decreases i,
{
    if i <= 0 {
        Seq::empty()
    } else {
        similar_pairs(h, i - 1, window) + similar_to(h, i - 1, h.len() as int, window)
    }
}

/// Nothing is similar to a change of owner.
proof fn lemma_transfer_has_no_similar(h: Seq<RecordView>, i: int, j: int, window: u64)
    requires
        is_transfer(h[i]),
    ensures
        similar_to(h, i, j, window) == Seq::<(u64, u64)>::empty(),
    decreases j - i,
{
    if j > i + 1 {
        lemma_transfer_has_no_similar(h, i, j - 1, window);
    }
}

/// The times of all pairs of records that look like one event recorded twice.
pub fn similar_records(history: &Vec<MaintenanceRecord>, window_seconds: u64) -> (r: Vec<
    (u64, u64),
>)
    ensures
        r@ == similar_pairs(records(history@), history@.len() as int, window_seconds),
{
    let ghost h = records(history@);
    let len: usize = history.len();
    let mut r: Vec<(u64, u64)> = Vec::new();
    let mut i: usize = 0;
    while i < len
        invariant
            i <= len,
            len == history@.len(),
            h == records(history@),
            r@ == similar_pairs(h, i as int, window_seconds),
        decreases len - i,
    {
        let ghost before = r@;
        if is_transfer_type(history[i].task_type) {
            proof {
                lemma_transfer_has_no_similar(h, i as int, len as int, window_seconds);
                assert(before + Seq::<(u64, u64)>::empty() =~= before);
            }
        } else {
            let mut j: usize = i + 1;
            assert(before + similar_to(h, i as int, j as int, window_seconds) =~= before);
            while j < len
                invariant
                    i < j <= len,
                    len == history@.len(),
                    h == records(history@),
                    !is_transfer(h[i as int]),
                    r@ == before + similar_to(h, i as int, j as int, window_seconds),
                decreases len - j,
            {
                let a: u64 = history[i].timestamp;
                let b: u64 = history[j].timestamp;
                let apart: u64 = if a > b {
                    a - b
                } else {
                    b - a
                };
                assert(similar_to(h, i as int, j + 1, window_seconds) == if similar(
                    h[i as int],
                    h[j as int],
                    window_seconds,
                ) {
                    similar_to(h, i as int, j as int, window_seconds).push((a, b))
                } else {
                    similar_to(h, i as int, j as int, window_seconds)
                });
                if !is_transfer_type(history[j].task_type) && history[i].task_type
                    == history[j].task_type && history[i].engineer == history[j].engineer && apart
                    <= window_seconds {
                    r.push((a, b));
                    assert(r@ =~= before + similar_to(h, i as int, j as int, window_seconds).push(
                        (a, b),
                    ));
                }
                j += 1;
            }
        }
        i += 1;
    }
    r
}

/// What the record says that the maintenance cost.
pub open spec fn cost_of(r: RecordView) -> int {
    match r.cost {
        Some(c) => c as int,
        None => 0,
    }
}

/// What all records together say that the maintenance cost.
pub open spec fn cost_sum(h: Seq<RecordView>) -> int
    decreases h.len(),
{
    if h.len() == 0 {
        0
    } else {
        cost_sum(h.drop_last()) + cost_of(h.last())
    }
}

/// What the maintenance of the asset has cost, or the largest number of 64 bits.
pub fn total_cost(history: &Vec<MaintenanceRecord>) -> (total: u64)
    ensures
        total == capped64(cost_sum(records(history@))),
{
    let ghost h = records(history@);
    let mut total: u64 = 0;
    let mut i: usize = 0;
    while i < history.len()
        invariant
            i <= history@.len(),
            h == records(history@),
            0 <= cost_sum(h.take(i as int)),
            total == capped64(cost_sum(h.take(i as int))),
        decreases history@.len() - i,
    {
        assert(h.take(i + 1).drop_last() =~= h.take(i as int));
        if let Some(cost) = history[i].cost {
            total = total.saturating_add(cost);
        }
        i += 1;
    }
    assert(h.take(h.len() as int) =~= h);
    total
}

/// Tells the records that name a cost apart.
pub open spec fn costed() -> spec_fn(RecordView) -> bool {
    |r: RecordView| r.cost is Some
}

/// The time and the cost of a record that names one.
pub open spec fn dated_cost() -> spec_fn(RecordView) -> (u64, u64) {
    |r: RecordView| (r.timestamp, cost_of(r) as u64)
}

/// The costs that the records name, each with its time before it.
pub fn cost_history(history: &Vec<MaintenanceRecord>) -> (r: Vec<(u64, u64)>)
    ensures
        r@ == records(history@).filter(costed()).map_values(dated_cost()),
{
    let ghost h = records(history@);
    let ghost p = costed();
    let ghost t = dated_cost();
    let mut r: Vec<(u64, u64)> = Vec::new();
    let mut i: usize = 0;
    proof {
        reveal(Seq::filter);
        assert(h.take(0).filter(p).map_values(t) =~= Seq::empty());
    }
    while i < history.len()
        invariant
            i <= history@.len(),
            h == records(history@),
            p == costed(),
            t == dated_cost(),
            r@ == h.take(i as int).filter(p).map_values(t),
        decreases history@.len() - i,
    {
        proof {
            lemma_filter_step(h, i as int, p);
            let s = h.take(i as int).filter(p);
            assert(s.push(h[i as int]).map_values(t) =~= s.map_values(t).push(t(h[i as int])));
        }
        if let Some(cost) = history[i].cost {
            r.push((history[i].timestamp, cost));
        }
        i += 1;
    }
    assert(h.take(h.len() as int) =~= h);
    r
}

/// Tells the records of one task type that name a cost apart.
pub open spec fn costed_of_type(task_type: Symbol) -> spec_fn(RecordView) -> bool {
    |r: RecordView| r.task_type == task_type && r.cost is Some
}

/// The average of the costs that the records of the task type name; zero if none does.
pub open spec fn average_cost(h: Seq<RecordView>, task_type: Symbol) -> u64 {
    let named = h.filter(costed_of_type(task_type));
    if named.len() == 0 {
        0
    } else {
        (capped64(cost_sum(named)) as int / named.len() as int) as u64
    }
}

/// The average of the costs that the records of the task type name; zero if none does.
pub fn average_cost_of(history: &Vec<MaintenanceRecord>, task_type: Symbol) -> (r: u64)
    ensures
        r == average_cost(records(history@), task_type),
{
    let ghost h = records(history@);
    let ghost p = costed_of_type(task_type);
    let mut total: u64 = 0;
    let mut count: u64 = 0;
    let mut i: usize = 0;
    proof {
        reveal(Seq::filter);
        assert(h.take(0).filter(p) =~= Seq::empty());
    }
    while i < history.len()
        invariant
            i <= history@.len(),
            h == records(history@),
            p == costed_of_type(task_type),
            count <= i,
            count == h.take(i as int).filter(p).len(),
            0 <= cost_sum(h.take(i as int).filter(p)),
            total == capped64(cost_sum(h.take(i as int).filter(p))),
        decreases history@.len() - i,
    {
        proof {
            lemma_filter_step(h, i as int, p);
            let s = h.take(i as int).filter(p);
            assert(s.push(h[i as int]).drop_last() =~= s);
        }
        if history[i].task_type == task_type {
            if let Some(cost) = history[i].cost {
                total = total.saturating_add(cost);
                count = count + 1;
            }
        }
        i += 1;
    }
    assert(h.take(h.len() as int) =~= h);
    if count == 0 {
        0
    } else {
        total / count
    }
}

/// Whether record `i` has the latest time, and is the first that has it.
pub open spec fn is_latest(h: Seq<RecordView>, i: int) -> bool {
    &&& 0 <= i < h.len()
    &&& forall|j: int| 0 <= j < i ==> (#[trigger] h[j]).timestamp < h[i].timestamp
    &&& forall|j: int| i < j < h.len() ==> (#[trigger] h[j]).timestamp <= h[i].timestamp
}

/// The place of the first record with the latest time.
pub fn latest_record(history: &Vec<MaintenanceRecord>) -> (r: Option<usize>)
    ensures
        match r {
            None => history@.len() == 0,
            Some(i) => is_latest(records(history@), i as int),
        },
{
    if history.len() == 0 {
        return None;
    }
    let ghost h = records(history@);
    let mut best: usize = 0;
    let mut i: usize = 1;
    while i < history.len()
        invariant
            0 <= best < i <= history@.len(),
            h == records(history@),
            is_latest(h.take(i as int), best as int),
        decreases history@.len() - i,
    {
        let ghost before = best;
        if history[i].timestamp > history[best].timestamp {
            best = i;
        }
        i += 1;
        assert(is_latest(h.take(i as int), best as int)) by {
            let s = h.take(i as int);
            let t = h.take(i - 1);
            assert forall|j: int| 0 <= j < best implies (#[trigger] s[j]).timestamp
                < s[best as int].timestamp by {
                assert(t[j].timestamp <= t[before as int].timestamp);
            }
            assert forall|j: int| best < j < s.len() implies (#[trigger] s[j]).timestamp
                <= s[best as int].timestamp by {
                if j < t.len() {
                    assert(t[j].timestamp <= t[before as int].timestamp);
                }
            }
        }
    }
    assert(h.take(h.len() as int) =~= h);
    Some(best)
}

/// Whether some record has the time.
pub fn has_record_at(history: &Vec<MaintenanceRecord>, timestamp: u64) -> (b: bool)
    ensures
        b == exists|i: int|
            0 <= i < history@.len() && (#[trigger] records(history@)[i]).timestamp == timestamp,
{
    let mut i: usize = 0;
    while i < history.len()
        invariant
            i <= history@.len(),
            forall|j: int|
                0 <= j < i ==> (#[trigger] records(history@)[j]).timestamp != timestamp,
        decreases history@.len() - i,
    {
        if history[i].timestamp == timestamp {
            assert(records(history@)[i as int].timestamp == timestamp);
            return true;
        }
        i += 1;
    }
    false
}

/// Appends the record.
pub fn push_record(history: &mut Vec<MaintenanceRecord>, r: MaintenanceRecord)
    ensures
        records(final(history)@) == records(old(history)@).push(r@),
{
    proof {
        lemma_records_push(history@, r);
    }
    history.push(r);
}

} // verus!
