//! Accounting of one fan-out stage, and aggregation of its results.
//!
//! A stage takes a known number of items and keeps at most `width` of them in
//! flight; a finished item's slot goes at once to the next pending item. The
//! driver that performs the work asks `can_dispatch` / `dispatch` to start an
//! item and calls `complete` when one finishes, whatever its outcome.
use vstd::prelude::*;
use crate::types::Hackathon;

verus! {

/// Progress of one stage: items are dispatched in input order and complete
/// in any order.
pub struct StageProgress {
    total: usize,
    width: usize,
    dispatched: usize,
    completed: usize,
}

impl StageProgress {
    pub closed spec fn spec_total(&self) -> nat {
        self.total as nat
    }

    pub closed spec fn spec_width(&self) -> nat {
        self.width as nat
    }

    /// Items that have been started (pending items are the rest).
    pub closed spec fn spec_dispatched(&self) -> nat {
        self.dispatched as nat
    }

    /// The stage's progress counter.
    pub closed spec fn spec_completed(&self) -> nat {
        self.completed as nat
    }

    pub open spec fn spec_in_flight(&self) -> int {
        self.spec_dispatched() - self.spec_completed()
    }

    pub open spec fn well_formed(&self) -> bool {
        &&& self.spec_width() > 0
        &&& self.spec_completed() <= self.spec_dispatched() <= self.spec_total()
        &&& self.spec_in_flight() <= self.spec_width()
    }

    /// A stage over `total` items with at most `width` in flight.
    pub fn new(total: usize, width: usize) -> (r: StageProgress)
        requires
            width > 0,
        ensures
            r.well_formed(),
            r.spec_total() == total,
            r.spec_width() == width,
            r.spec_dispatched() == 0,
            r.spec_completed() == 0,
    {
        StageProgress { total, width, dispatched: 0, completed: 0 }
    }

    /// Whether a pending item may start now: one is left and a slot is free.
    pub fn can_dispatch(&self) -> (r: bool)
        requires
            self.well_formed(),
        ensures
            r == (self.spec_dispatched() < self.spec_total() && self.spec_in_flight()
                < self.spec_width()),
    {
        self.dispatched < self.total && self.dispatched - self.completed < self.width
    }

    /// Starts the next pending item and returns its index in the input.
    pub fn dispatch(&mut self) -> (r: usize)
        requires
            old(self).well_formed(),
            old(self).spec_dispatched() < old(self).spec_total(),
            old(self).spec_in_flight() < old(self).spec_width(),
        ensures
            final(self).well_formed(),
            r == old(self).spec_dispatched(),
            final(self).spec_dispatched() == old(self).spec_dispatched() + 1,
            final(self).spec_completed() == old(self).spec_completed(),
            final(self).spec_total() == old(self).spec_total(),
            final(self).spec_width() == old(self).spec_width(),
    {
        let r = self.dispatched;
        self.dispatched = self.dispatched + 1;
        r
    }

    /// Records that one in-flight item finished, successfully or not, and
    /// returns the new value of the progress counter.
    pub fn complete(&mut self) -> (r: usize)
        requires
            old(self).well_formed(),
            old(self).spec_in_flight() > 0,
        ensures
            final(self).well_formed(),
            r == final(self).spec_completed(),
            final(self).spec_completed() == old(self).spec_completed() + 1,
            final(self).spec_dispatched() == old(self).spec_dispatched(),
            final(self).spec_total() == old(self).spec_total(),
            final(self).spec_width() == old(self).spec_width(),
    {
        self.completed = self.completed + 1;
        self.completed
    }

    /// Whether every item has completed.
    pub fn is_done(&self) -> (r: bool)
        requires
            self.well_formed(),
        ensures
            r == (self.spec_completed() == self.spec_total()),
    {
        self.completed == self.total
    }

    pub fn in_flight(&self) -> (r: usize)
        requires
            self.well_formed(),
        ensures
            r == self.spec_in_flight(),
    {
        self.dispatched - self.completed
    }

    pub fn completed(&self) -> (r: usize)
        ensures
            r == self.spec_completed(),
    {
        self.completed
    }

    pub fn total(&self) -> (r: usize)
        ensures
            r == self.spec_total(),
    {
        self.total
    }
}

/// In every reachable state no more than `width` items are in flight.
pub proof fn lemma_in_flight_bounded(s: StageProgress)
    requires
        s.well_formed(),
    ensures
        0 <= s.spec_in_flight() <= s.spec_width(),
{
}

/// Once no item can be started and none is in flight, the progress counter
/// equals the number of input items: each item was counted exactly once.
pub proof fn lemma_drained_stage_counts_all(s: StageProgress)
    requires
        s.well_formed(),
        s.spec_in_flight() == 0,
        !(s.spec_dispatched() < s.spec_total() && s.spec_in_flight() < s.spec_width()),
    ensures
        s.spec_completed() == s.spec_total(),
        s.spec_dispatched() == s.spec_total(),
{
}

/// The concatenation of the per-item record sequences, in the order given.
pub open spec fn concat_all(parts: Seq<Vec<Hackathon>>) -> Seq<Hackathon>
    decreases parts.len(),
{
    if parts.len() == 0 {
        seq![]
    } else {
        concat_all(parts.drop_last()) + parts.last()@
    }
}

/// Joins the per-item outputs of the analysis stage into one flat sequence,
/// keeping the order inside each item and the order of the items.
pub fn concat_records(parts: Vec<Vec<Hackathon>>) -> (r: Vec<Hackathon>)
    ensures
        r@ == concat_all(parts@),
{
    let mut r: Vec<Hackathon> = Vec::new();
    let mut i: usize = 0;
    while i < parts.len()
        invariant
            i <= parts@.len(),
            r@ == concat_all(parts@.take(i as int)),
        decreases parts@.len() - i,
    {
        let part = &parts[i];
        let ghost before = r@;
        let mut j: usize = 0;
        while j < part.len()
            invariant
                j <= part@.len(),
                r@ == before + part@.take(j as int),
            decreases part@.len() - j,
        {
            r.push(part[j].clone_record());
            assert(part@.take(j + 1) =~= part@.take(j as int).push(part@[j as int]));
            j += 1;
        }
        assert(part@.take(part@.len() as int) =~= part@);
        assert(parts@.take(i + 1).drop_last() =~= parts@.take(i as int));
        i += 1;
    }
    assert(parts@.take(parts@.len() as int) =~= parts@);
    r
}

/// The records one analysis call contributes: its records when it
/// succeeded, none when it failed.
pub fn records_or_empty(outcome: Result<Vec<Hackathon>, String>) -> (r: Vec<Hackathon>)
    ensures
        match outcome {
            Ok(v) => r == v,
            Err(_) => r@.len() == 0,
        },
{
    match outcome {
        Ok(v) => v,
        Err(_) => Vec::new(),
    }
}

} // verus!
