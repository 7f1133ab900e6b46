//! What a debounced receiver does over a whole history of batches and polls.

use crate::debounce::{after_batch, after_poll, elapsed, flushed, quiet, DebounceState, DEBOUNCE_INTERVAL_MS};
use crate::path::{lemma_merged_concat, lemma_merged_is_union, merged};
use vstd::prelude::*;

verus! {

/// One thing that happens to a receiver, with the clock's reading at that moment.
pub enum Tick {
    /// A batch of changed paths comes in.
    Batch { at: int, paths: Seq<Seq<char>> },
    /// The receiver is asked whether a flush is due.
    Poll { at: int },
}

/// When a tick happens.
pub open spec fn at(tick: Tick) -> int {
    match tick {
        Tick::Batch { at, .. } => at,
        Tick::Poll { at } => at,
    }
}

/// The paths that a tick brings.
pub open spec fn paths_of(tick: Tick) -> Seq<Seq<char>> {
    match tick {
        Tick::Batch { paths, .. } => paths,
        Tick::Poll { .. } => Seq::empty(),
    }
}

/// The state after one tick.
pub open spec fn after_tick(s: DebounceState, tick: Tick) -> DebounceState {
    match tick {
        Tick::Batch { at, paths } => after_batch(s, at, paths),
        Tick::Poll { at } => after_poll(s, at),
    }
}

/// What one tick flushes: at most one set.
pub open spec fn flush_of(s: DebounceState, tick: Tick) -> Seq<Seq<Seq<char>>> {
    match tick {
        Tick::Batch { .. } => Seq::empty(),
        Tick::Poll { at } => match flushed(s, at) {
            Some(paths) => seq![paths],
            None => Seq::empty(),
        },
    }
}

/// The state after a whole trace, first tick first.
pub open spec fn after_trace(s: DebounceState, trace: Seq<Tick>) -> DebounceState
    decreases trace.len(),
{
    if trace.len() == 0 {
        s
    } else {
        after_trace(after_tick(s, trace[0]), trace.skip(1))
    }
}

/// Every set that a trace flushes, in order.
pub open spec fn flushes(s: DebounceState, trace: Seq<Tick>) -> Seq<Seq<Seq<char>>>
    decreases trace.len(),
{
    if trace.len() == 0 {
        Seq::empty()
    } else {
        flush_of(s, trace[0]) + flushes(after_tick(s, trace[0]), trace.skip(1))
    }
}

/// All paths that the batches of a trace bring, in order of arrival, repeats included.
pub open spec fn arrived(trace: Seq<Tick>) -> Seq<Seq<char>>
    decreases trace.len(),
{
    if trace.len() == 0 {
        Seq::empty()
    } else {
        paths_of(trace[0]) + arrived(trace.skip(1))
    }
}

/// The clock never runs backwards along the trace.
pub open spec fn ordered(trace: Seq<Tick>) -> bool {
    forall|i: int, j: int| 0 <= i < j < trace.len() ==> at(trace[i]) <= at(trace[j])
}

/// Each batch comes less than a quiet period after the batch before it.
pub open spec fn close_arrivals(trace: Seq<Tick>) -> bool {
    forall|i: int, j: int|
        0 <= i < j < trace.len() && trace[i] is Batch && trace[j] is Batch && polls_between(
            trace,
            i,
            j,
        ) ==> at(trace[j]) - at(trace[i]) < DEBOUNCE_INTERVAL_MS
}

/// Only polls lie strictly between positions `i` and `j`.
pub open spec fn polls_between(trace: Seq<Tick>, i: int, j: int) -> bool {
    forall|k: int| i < k < j ==> (#[trigger] trace[k]) is Poll
}

/// A burst: batches that keep coming faster than the quiet period, polled at will in
/// between, and not yet followed by a pause.
pub open spec fn burst(trace: Seq<Tick>) -> bool {
    &&& ordered(trace)
    &&& close_arrivals(trace)
    &&& trace.len() > 0 ==> trace.last() is Batch
}

/// Polls only.
pub open spec fn all_polls(trace: Seq<Tick>) -> bool {
    forall|k: int| 0 <= k < trace.len() ==> (#[trigger] trace[k]) is Poll
}

/// Position of the first batch in the trace; the length of the trace if it has none.
spec fn first_batch(trace: Seq<Tick>) -> int
    decreases trace.len(),
{
    if trace.len() == 0 {
        0
    } else if trace[0] is Batch {
        0
    } else {
        1 + first_batch(trace.skip(1))
    }
}

proof fn lemma_first_batch(trace: Seq<Tick>)
    ensures
        0 <= first_batch(trace) <= trace.len(),
        polls_between(trace, -1, first_batch(trace)),
        first_batch(trace) < trace.len() ==> trace[first_batch(trace)] is Batch,
        trace.len() > 0 && trace.last() is Batch ==> first_batch(trace) < trace.len(),
    decreases trace.len(),
{
    if trace.len() > 0 && !(trace[0] is Batch) {
        let rest = trace.skip(1);
        lemma_first_batch(rest);
        assert forall|k: int| -1 < k < first_batch(trace) implies (#[trigger] trace[k]) is Poll by {
            if k > 0 {
                assert(rest[k - 1] is Poll);
            }
        }
        if trace.len() > 1 {
            assert(rest.last() == trace.last());
        }
    }
}

proof fn lemma_burst_rest(trace: Seq<Tick>)
    requires
        burst(trace),
        trace.len() > 0,
    ensures
        burst(trace.skip(1)),
{
    let rest = trace.skip(1);
    assert forall|i: int, j: int| 0 <= i < j < rest.len() implies at(rest[i]) <= at(rest[j]) by {
        assert(at(trace[i + 1]) <= at(trace[j + 1]));
    }
    assert forall|i: int, j: int|
        0 <= i < j < rest.len() && rest[i] is Batch && rest[j] is Batch && polls_between(
            rest,
            i,
            j,
        ) implies at(rest[j]) - at(rest[i]) < DEBOUNCE_INTERVAL_MS by {
        assert forall|k: int| i + 1 < k < j + 1 implies (#[trigger] trace[k]) is Poll by {
            assert(rest[k - 1] is Poll);
        }
        assert(polls_between(trace, i + 1, j + 1));
        assert(trace[i + 1] is Batch && trace[j + 1] is Batch);
    }
    if rest.len() > 0 {
        assert(rest.last() == trace.last());
    }
}

/// Inside a burst nothing is flushed, provided that whatever was pending at its start
/// is itself less than a quiet period old when the first batch comes.
proof fn lemma_burst_from(s: DebounceState, trace: Seq<Tick>)
    requires
        burst(trace),
        s.paths.len() > 0 && trace.len() > 0 ==> at(trace[first_batch(trace)]) - s.last_arrival
            < DEBOUNCE_INTERVAL_MS,
    ensures
        flushes(s, trace).len() == 0,
        after_trace(s, trace).paths == merged(s.paths, arrived(trace)),
        trace.len() > 0 ==> after_trace(s, trace).last_arrival == at(trace.last()),
    decreases trace.len(),
{
    if trace.len() > 0 {
        let rest = trace.skip(1);
        let next = after_tick(s, trace[0]);
        lemma_burst_rest(trace);
        lemma_first_batch(trace);
        lemma_first_batch(rest);
        if rest.len() > 0 {
            assert(rest.last() == trace.last());
        }
        match trace[0] {
            Tick::Batch { at: now, paths } => {
                if rest.len() > 0 {
                    let j = first_batch(rest);
                    assert forall|k: int| 0 < k < j + 1 implies (#[trigger] trace[k]) is Poll by {
                        assert(rest[k - 1] is Poll);
                    }
                    assert(polls_between(trace, 0, j + 1));
                    assert(trace[j + 1] is Batch);
                    assert(at(rest[j]) == at(trace[j + 1]));
                }
                lemma_burst_from(next, rest);
                lemma_merged_concat(s.paths, paths, arrived(rest));
            },
            Tick::Poll { at: now } => {
                if s.paths.len() > 0 {
                    let j = first_batch(trace);
                    assert(j == 1 + first_batch(rest));
                    assert(at(trace[0]) <= at(trace[j]));
                    assert(!quiet(s, now));
                    assert(rest[j - 1] == trace[j]);
                }
                assert(next == s);
                lemma_burst_from(next, rest);
                assert(paths_of(trace[0]) + arrived(rest) =~= arrived(rest));
            },
        }
        assert(flushes(s, trace) =~= flush_of(s, trace[0]) + flushes(next, rest));
    } else {
        assert(merged(s.paths, arrived(trace)) == s.paths);
    }
}

/// While batches keep arriving faster than the quiet period, nothing is flushed,
/// however often the receiver is polled in between: everything that came stays
/// pending, each path once.
pub proof fn lemma_no_flush_during_burst(s: DebounceState, trace: Seq<Tick>)
    requires
        s.paths.len() == 0,
        burst(trace),
    ensures
        flushes(s, trace).len() == 0,
        after_trace(s, trace).paths == merged(Seq::empty(), arrived(trace)),
        after_trace(s, trace).paths.to_set() == arrived(trace).to_set(),
        trace.len() > 0 ==> after_trace(s, trace).last_arrival == at(trace.last()),
{
    lemma_burst_from(s, trace);
    assert(s.paths =~= Seq::empty());
    lemma_merged_is_union(Seq::empty(), arrived(trace));
    assert(Seq::<Seq<char>>::empty().to_set().union(arrived(trace).to_set()) =~= arrived(
        trace,
    ).to_set());
}

/// A trace in two parts flushes what the first part flushes and then what the second
/// part flushes from where the first one ended.
pub proof fn lemma_flushes_split(s: DebounceState, first: Seq<Tick>, second: Seq<Tick>)
    ensures
        flushes(s, first + second) == flushes(s, first) + flushes(after_trace(s, first), second),
        after_trace(s, first + second) == after_trace(after_trace(s, first), second),
    decreases first.len(),
{
    if first.len() == 0 {
        assert(first + second =~= second);
        assert(flushes(s, first) + flushes(s, second) =~= flushes(s, second));
    } else {
        let next = after_tick(s, first[0]);
        assert((first + second).skip(1) =~= first.skip(1) + second);
        assert((first + second)[0] == first[0]);
        lemma_flushes_split(next, first.skip(1), second);
        assert(flush_of(s, first[0]) + (flushes(next, first.skip(1)) + flushes(
            after_trace(next, first.skip(1)),
            second,
        )) =~= (flush_of(s, first[0]) + flushes(next, first.skip(1))) + flushes(
            after_trace(next, first.skip(1)),
            second,
        ));
    }
}

/// With nothing pending, polls flush nothing.
pub proof fn lemma_idle_polls(s: DebounceState, polls: Seq<Tick>)
    requires
        s.paths.len() == 0,
        all_polls(polls),
    ensures
        flushes(s, polls).len() == 0,
        after_trace(s, polls) == s,
    decreases polls.len(),
{
    if polls.len() > 0 {
        assert(polls[0] is Poll);
        assert forall|k: int| 0 <= k < polls.skip(1).len() implies (#[trigger] polls.skip(1)[k]) is Poll by {
            assert(polls[k + 1] is Poll);
        }
        lemma_idle_polls(s, polls.skip(1));
    }
}

/// One of the polls comes a full quiet period or more after the latest batch.
pub open spec fn some_poll_late(s: DebounceState, polls: Seq<Tick>) -> bool {
    exists|k: int|
        0 <= k < polls.len() && elapsed(s, at(#[trigger] polls[k])) >= DEBOUNCE_INTERVAL_MS
}

proof fn lemma_late_first_or_later(s: DebounceState, polls: Seq<Tick>)
    requires
        polls.len() > 0,
        all_polls(polls),
    ensures
        all_polls(polls.skip(1)),
        some_poll_late(s, polls) <==> elapsed(s, at(polls[0])) >= DEBOUNCE_INTERVAL_MS
            || some_poll_late(s, polls.skip(1)),
{
    let rest = polls.skip(1);
    assert forall|k: int| 0 <= k < rest.len() implies (#[trigger] rest[k]) is Poll by {
        assert(polls[k + 1] is Poll);
    }
    if some_poll_late(s, polls) {
        let k = choose|k: int|
            0 <= k < polls.len() && elapsed(s, at(#[trigger] polls[k])) >= DEBOUNCE_INTERVAL_MS;
        if k > 0 {
            assert(rest[k - 1] == polls[k]);
        }
    }
    if some_poll_late(s, rest) {
        let k = choose|k: int|
            0 <= k < rest.len() && elapsed(s, at(#[trigger] rest[k])) >= DEBOUNCE_INTERVAL_MS;
        assert(polls[k + 1] == rest[k]);
    }
}

/// Once batches stop, the pending set is flushed by the first poll that comes a full
/// quiet period after the latest batch, whole and only once; no earlier poll flushes
/// anything, and after the flush nothing is pending.
pub proof fn lemma_polls_flush_once(s: DebounceState, polls: Seq<Tick>)
    requires
        s.paths.len() > 0,
        all_polls(polls),
    ensures
        flushes(s, polls) == if some_poll_late(s, polls) {
            seq![s.paths]
        } else {
            Seq::empty()
        },
        after_trace(s, polls).paths == if some_poll_late(s, polls) {
            Seq::empty()
        } else {
            s.paths
        },
    decreases polls.len(),
{
    if polls.len() > 0 {
        let rest = polls.skip(1);
        let next = after_tick(s, polls[0]);
        lemma_late_first_or_later(s, polls);
        assert(polls[0] is Poll);
        if quiet(s, at(polls[0])) {
            lemma_idle_polls(next, rest);
            assert(flushes(s, polls) =~= seq![s.paths]);
        } else {
            lemma_polls_flush_once(s, rest);
            assert(flushes(s, polls) =~= flushes(s, rest));
        }
    }
}

/// A burst of batches that arrive within the quiet period of one another, followed
/// by polls of which at least one comes a full quiet period after the last batch,
/// is flushed exactly once, and the flushed set is the union of all paths that
/// arrived, each path once.
pub proof fn lemma_burst_flushes_once(s: DebounceState, trace: Seq<Tick>, polls: Seq<Tick>)
    requires
        s.paths.len() == 0,
        burst(trace),
        arrived(trace).len() > 0,
        all_polls(polls),
        exists|k: int|
            0 <= k < polls.len() && at(#[trigger] polls[k]) - at(trace.last())
                >= DEBOUNCE_INTERVAL_MS,
    ensures
        flushes(s, trace + polls).len() == 1,
        flushes(s, trace + polls)[0] == merged(Seq::empty(), arrived(trace)),
        flushes(s, trace + polls)[0].no_duplicates(),
        flushes(s, trace + polls)[0].to_set() == arrived(trace).to_set(),
        after_trace(s, trace + polls).paths.len() == 0,
{
    lemma_no_flush_during_burst(s, trace);
    lemma_flushes_split(s, trace, polls);
    let mid = after_trace(s, trace);
    assert(trace.len() > 0);
    crate::path::lemma_merged_distinct(Seq::empty(), arrived(trace));
    crate::path::lemma_merged_contains(Seq::empty(), arrived(trace), arrived(trace)[0]);
    assert(mid.paths.contains(arrived(trace)[0]));
    let k = choose|k: int|
        0 <= k < polls.len() && at(#[trigger] polls[k]) - at(trace.last()) >= DEBOUNCE_INTERVAL_MS;
    assert(elapsed(mid, at(polls[k])) >= DEBOUNCE_INTERVAL_MS);
    lemma_polls_flush_once(mid, polls);
    assert(flushes(s, trace + polls) =~= seq![mid.paths]);
}

} // verus!
