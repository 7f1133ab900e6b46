//! Quiet-period debouncing of change batches.
//!
//! Batches of changed paths accumulate in a duplicate-free set. The set is flushed,
//! whole, once a full quiet period has passed since the latest batch came in; every
//! batch that arrives earlier joins the set and starts the period anew. Time is a
//! count of milliseconds on a clock that the caller reads.

use crate::path::{merged, texts, PathSet, WatchPath};
use vstd::prelude::*;

verus! {

/// Length of the quiet period, in milliseconds.
pub const DEBOUNCE_INTERVAL_MS: u64 = 200;

/// What a receiver remembers: the paths not yet flushed and when the latest batch came.
pub struct DebounceState {
    pub paths: Seq<Seq<char>>,
    pub last_arrival: int,
}

/// Milliseconds since the latest batch; none when the clock reads earlier than that.
pub open spec fn elapsed(s: DebounceState, now: int) -> int {
    if now >= s.last_arrival {
        now - s.last_arrival
    } else {
        0
    }
}

/// A flush is due: something is pending and a full quiet period has passed.
pub open spec fn quiet(s: DebounceState, now: int) -> bool {
    s.paths.len() > 0 && elapsed(s, now) >= DEBOUNCE_INTERVAL_MS
}

/// The state after a batch came in at `now`.
pub open spec fn after_batch(s: DebounceState, now: int, batch: Seq<Seq<char>>) -> DebounceState {
    DebounceState { paths: merged(s.paths, batch), last_arrival: now }
}

/// What a poll at `now` hands out.
pub open spec fn flushed(s: DebounceState, now: int) -> Option<Seq<Seq<char>>> {
    if quiet(s, now) {
        Some(s.paths)
    } else {
        None
    }
}

/// The state after a poll at `now`.
pub open spec fn after_poll(s: DebounceState, now: int) -> DebounceState {
    if quiet(s, now) {
        DebounceState { paths: Seq::empty(), last_arrival: s.last_arrival }
    } else {
        s
    }
}

/// What to wait for next.
#[derive(Clone, Copy, Debug, PartialEq, Eq, Structural)]
pub enum Wait {
    /// Nothing is pending: wait for a batch, however long it takes.
    Batch,
    /// Something is pending: wait for a batch, but no longer than this many
    /// milliseconds.
    BatchOrTimeout(u64),
}

/// What to wait for in state `s` at `now`.
pub open spec fn wait_in(s: DebounceState, now: int) -> Wait {
    if s.paths.len() == 0 {
        Wait::Batch
    } else if elapsed(s, now) >= DEBOUNCE_INTERVAL_MS {
        Wait::BatchOrTimeout(0)
    } else {
        Wait::BatchOrTimeout((DEBOUNCE_INTERVAL_MS - elapsed(s, now)) as u64)
    }
}

/// How a wait ended.
#[derive(Debug, PartialEq, Eq)]
pub enum Arrival {
    /// A batch of changed paths came in; it may be empty.
    Batch(Vec<WatchPath>),
    /// The wait timed out.
    Timeout,
    /// The source of batches is gone for good.
    Closed,
}

/// What the receiver makes of the end of a wait.
#[derive(Debug, PartialEq, Eq)]
pub enum Received {
    /// Nothing to hand out yet: wait again, as told.
    Pending(Wait),
    /// A debounced set of changed paths, never empty.
    Changed(Vec<WatchPath>),
    /// No more changes will come.
    Closed,
}

/// The texts of an optional list of paths.
pub open spec fn option_texts(paths: Option<Vec<WatchPath>>) -> Option<Seq<Seq<char>>> {
    match paths {
        Some(paths) => Some(texts(paths@)),
        None => None,
    }
}

/// Accumulates change batches and hands them out debounced.
pub struct DebouncedReceiver {
    received_items: PathSet,
    last_arrival: u64,
}

impl View for DebouncedReceiver {
    type V = DebounceState;

    closed spec fn view(&self) -> DebounceState {
        DebounceState { paths: self.received_items@, last_arrival: self.last_arrival as int }
    }
}

impl DebouncedReceiver {
    /// No pending path occurs twice.
    pub open spec fn wf(&self) -> bool {
        self@.paths.no_duplicates()
    }

    pub fn new() -> (receiver: DebouncedReceiver)
        ensures
            receiver.wf(),
            receiver@.paths == Seq::<Seq<char>>::empty(),
    {
        DebouncedReceiver { received_items: PathSet::new(), last_arrival: 0 }
    }

    /// Whether any path is waiting to be flushed.
    pub fn has_pending(&self) -> (pending: bool)
        ensures
            pending == (self@.paths.len() > 0),
    {
        !self.received_items.is_empty()
    }

    /// Takes in a batch that arrived at `now` and starts the quiet period anew.
    pub fn receive_batch(&mut self, now: u64, batch: &Vec<WatchPath>)
        requires
            old(self).wf(),
        ensures
            final(self).wf(),
            final(self)@ == after_batch(old(self)@, now as int, texts(batch@)),
    {
        self.received_items.extend(batch);
        self.last_arrival = now;
    }

    /// Hands out the pending set if a flush is due at `now`, and nothing otherwise.
    pub fn poll(&mut self, now: u64) -> (out: Option<Vec<WatchPath>>)
        requires
            old(self).wf(),
        ensures
            final(self).wf(),
            final(self)@ == after_poll(old(self)@, now as int),
            option_texts(out) == flushed(old(self)@, now as int),
            out matches Some(paths) ==> paths@.len() > 0,
    {
        if self.received_items.is_empty() {
            return None;
        }
        if now >= self.last_arrival && now - self.last_arrival >= DEBOUNCE_INTERVAL_MS {
            Some(self.received_items.take_all())
        } else {
            None
        }
    }

    /// What to wait for at `now`.
    pub fn next_wait(&self, now: u64) -> (wait: Wait)
        requires
            self.wf(),
        ensures
            wait == wait_in(self@, now as int),
    {
        if self.received_items.is_empty() {
            Wait::Batch
        } else if now < self.last_arrival {
            Wait::BatchOrTimeout(DEBOUNCE_INTERVAL_MS)
        } else if now - self.last_arrival >= DEBOUNCE_INTERVAL_MS {
            Wait::BatchOrTimeout(0)
        } else {
            Wait::BatchOrTimeout(DEBOUNCE_INTERVAL_MS - (now - self.last_arrival))
        }
    }

    /// One step of receiving: takes in how the last wait ended, at `now`, and either
    /// hands out a debounced set, reports the end of all changes, or says what to wait
    /// for next. A closed source ends the receiving at once, whatever is pending.
    pub fn recv(&mut self, now: u64, arrival: Arrival) -> (out: Received)
        requires
            old(self).wf(),
        ensures
            final(self).wf(),
            match arrival {
                Arrival::Closed => out is Closed && final(self)@ == old(self)@,
                Arrival::Batch(batch) => {
                    &&& final(self)@ == after_batch(old(self)@, now as int, texts(batch@))
                    &&& out == Received::Pending(wait_in(final(self)@, now as int))
                },
                Arrival::Timeout => {
                    &&& final(self)@ == after_poll(old(self)@, now as int)
                    &&& match out {
                        Received::Changed(paths) => paths@.len() > 0 && flushed(
                            old(self)@,
                            now as int,
                        ) == Some(texts(paths@)),
                        Received::Pending(wait) => flushed(old(self)@, now as int) is None
                            && wait == wait_in(old(self)@, now as int),
                        Received::Closed => false,
                    }
                },
            },
    {
        match arrival {
            Arrival::Closed => Received::Closed,
            Arrival::Batch(batch) => {
                self.receive_batch(now, &batch);
                Received::Pending(self.next_wait(now))
            },
            Arrival::Timeout => {
                match self.poll(now) {
                    Some(paths) => Received::Changed(paths),
                    None => Received::Pending(self.next_wait(now)),
                }
            },
        }
    }
}

} // verus!
