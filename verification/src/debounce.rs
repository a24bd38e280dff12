//! The debouncer: collapses bursts of filesystem events so each path
//! triggers at most one refresh per cool-down window. An event is
//! accepted when no event for its path was accepted before, or when the
//! window has fully elapsed since the last accepted one; accepted
//! events are recorded, rejected ones are dropped without trace.

use vstd::prelude::*;

use crate::path_times::PathTimes;

verus! {

/// Whether an event for `path` at instant `now` is accepted, given the
/// record `m` of last accepted instants and the cool-down `window`.
pub open spec fn spec_accepts(m: Map<Seq<char>, u64>, window: u64, path: Seq<char>, now: u64) -> bool {
    !m.contains_key(path) || m[path] + window <= now
}

/// Collapses event bursts per path; instants are caller-supplied and
/// must come from one monotonic clock (milliseconds, say).
pub struct Debouncer {
    window: u64,
    seen: PathTimes,
}

impl View for Debouncer {
    type V = Map<Seq<char>, u64>;

    closed spec fn view(&self) -> Map<Seq<char>, u64> {
        self.seen@
    }
}

impl Debouncer {
    pub closed spec fn wf(&self) -> bool {
        self.seen.wf()
    }

    /// The cool-down window, in the caller's clock units.
    pub closed spec fn spec_window(&self) -> u64 {
        self.window
    }

    /// A debouncer with the given cool-down window that has accepted
    /// nothing yet.
    pub fn new(window: u64) -> (r: Debouncer)
        ensures
            r.wf(),
            r@ == Map::<Seq<char>, u64>::empty(),
            r.spec_window() == window,
    {
        Debouncer { window, seen: PathTimes::new() }
    }

    /// Whether an event for `path` at `now` would be accepted.
    pub fn should_process(&self, path: &str, now: u64) -> (r: bool)
        requires
            self.wf(),
        ensures
            r == spec_accepts(self@, self.spec_window(), path@, now),
    {
        match self.seen.lookup(path) {
            None => true,
            Some(last) => now >= last && now - last >= self.window,
        }
    }

    /// Records an accepted event for `path` at `now`.
    pub fn record(&mut self, path: String, now: u64)
        requires
            old(self).wf(),
        ensures
            final(self).wf(),
            final(self)@ == old(self)@.insert(path@, now),
            final(self).spec_window() == old(self).spec_window(),
    {
        self.seen.record(path, now);
    }

    /// Tests an event and records it when accepted, in one step: the
    /// shape every watcher loop wants.
    pub fn process_event(&mut self, path: String, now: u64) -> (accepted: bool)
        requires
            old(self).wf(),
        ensures
            final(self).wf(),
            final(self).spec_window() == old(self).spec_window(),
            accepted == spec_accepts(old(self)@, old(self).spec_window(), path@, now),
            final(self)@ == if accepted {
                old(self)@.insert(path@, now)
            } else {
                old(self)@
            },
    {
        if self.should_process(path.as_str(), now) {
            self.record(path, now);
            true
        } else {
            false
        }
    }
}

/// Law: once an event for a path is accepted and recorded at `t1`, a
/// second event for the same path at `t2` is accepted exactly when the
/// cool-down window has fully elapsed in between; two events closer
/// than the window yield one accepted refresh.
pub proof fn lemma_debounce_window(
    m: Map<Seq<char>, u64>,
    window: u64,
    path: Seq<char>,
    t1: u64,
    t2: u64,
)
    requires
        spec_accepts(m, window, path, t1),
        t1 <= t2,
    ensures
        spec_accepts(m.insert(path, t1), window, path, t2) <==> t2 - t1 >= window,
{
}

} // verus!
