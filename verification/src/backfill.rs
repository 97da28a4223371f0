//! Historical backfill coordinator: a state machine that replays a bounded
//! block range, in order, through the chain adapter into the channel.
//!
//! The machine moves `Pending -> Fetching(n) -> Publishing(n) ->
//! Fetching(n+1) -> ...` and ends in `Exhausted`, `Aborted` or `Cancelled`.
//! A publish must complete before the range advances, so a run never skips
//! a block and never publishes one twice. The driver owning the adapter and
//! the channel reports each outcome through one method per event; every
//! method is pinned to the one spec transition `backfill_step`, and the
//! ordering law over whole runs is proved below from that transition alone.

use vstd::prelude::*;

verus! {

/// Upper bound of a task that runs until it catches up with the tip: no
/// explicit range uses this value, so it doubles as the open-range mark.
pub const END_BLOCK_OPEN: u64 = u64::MAX;

#[derive(Clone, Copy, PartialEq, Eq, Structural, Debug)]
pub enum BackfillPhase {
    /// Created, no fetch issued yet.
    Pending,
    /// A fetch for `next_block` is outstanding.
    Fetching,
    /// `next_block` was fetched; its publish is in flight.
    Publishing,
    /// The range is done: the bound was passed, or the chain had no block
    /// at `next_block` yet and the caller decides about a live handoff.
    Exhausted,
    /// The retry budget ran out or the adapter failed permanently; blocks
    /// from `next_block` on were left unpublished, not skipped.
    Aborted,
    /// Shutdown was requested; stopped between a publish and the next fetch.
    Cancelled,
}

/// What the driver observed since the last transition.
#[derive(Clone, Copy, PartialEq, Eq, Structural, Debug)]
pub enum BackfillEvent {
    /// The first fetch was issued.
    Started,
    /// The fetch for `next_block` returned the block.
    Fetched,
    /// The fetch returned no block: the chain has not produced it yet.
    NotAvailable,
    /// A transient fetch or publish failure; retried with backoff.
    TransientError,
    /// A permanent adapter failure; the task aborts.
    PermanentError,
    /// The publish of `next_block` completed durably.
    Published,
    /// Shutdown was requested while no publish was in flight.
    Cancelled,
}

#[derive(Clone, Copy, PartialEq, Eq, Structural, Debug)]
pub struct BackfillCoordinator {
    pub start_block: u64,
    /// Inclusive upper bound, `END_BLOCK_OPEN` for a run-until-caught-up task.
    pub end_block: u64,
    /// The block currently being fetched or published; everything below it
    /// and at or above `start_block` has been published exactly once.
    pub next_block: u64,
    pub retry_budget: u32,
    pub retries_left: u32,
    pub phase: BackfillPhase,
}

pub open spec fn backfill_terminal(p: BackfillPhase) -> bool {
    p is Exhausted || p is Aborted || p is Cancelled
}

/// The one transition relation of the coordinator. Events that do not
/// apply in the current phase leave the state unchanged.
pub open spec fn backfill_step(c: BackfillCoordinator, e: BackfillEvent) -> BackfillCoordinator {
    match e {
        BackfillEvent::Started => if c.phase is Pending {
            BackfillCoordinator { phase: BackfillPhase::Fetching, ..c }
        } else {
            c
        },
        BackfillEvent::Fetched => if c.phase is Fetching {
            BackfillCoordinator { phase: BackfillPhase::Publishing, ..c }
        } else {
            c
        },
        BackfillEvent::NotAvailable => if c.phase is Fetching {
            BackfillCoordinator { phase: BackfillPhase::Exhausted, ..c }
        } else {
            c
        },
        BackfillEvent::TransientError => if c.phase is Fetching {
            if c.retries_left > 0 {
                BackfillCoordinator { retries_left: (c.retries_left - 1) as u32, ..c }
            } else {
                BackfillCoordinator { phase: BackfillPhase::Aborted, ..c }
            }
        } else {
            c
        },
        BackfillEvent::PermanentError => if c.phase is Fetching {
            BackfillCoordinator { phase: BackfillPhase::Aborted, ..c }
        } else {
            c
        },
        BackfillEvent::Published => if c.phase is Publishing {
            if c.next_block < c.end_block {
                BackfillCoordinator {
                    phase: BackfillPhase::Fetching,
                    next_block: (c.next_block + 1) as u64,
                    retries_left: c.retry_budget,
                    ..c
                }
            } else {
                BackfillCoordinator { phase: BackfillPhase::Exhausted, ..c }
            }
        } else {
            c
        },
        BackfillEvent::Cancelled => if c.phase is Pending || c.phase is Fetching {
            BackfillCoordinator { phase: BackfillPhase::Cancelled, ..c }
        } else {
            c
        },
    }
}

/// The block number whose publish an event makes durable, if any.
pub open spec fn backfill_emits(c: BackfillCoordinator, e: BackfillEvent) -> Option<u64> {
    if e is Published && c.phase is Publishing {
        Option::Some(c.next_block)
    } else {
        Option::None
    }
}

/// State after a whole run of events.
pub open spec fn backfill_run(c: BackfillCoordinator, evs: Seq<BackfillEvent>) -> BackfillCoordinator
    decreases evs.len(),
{
    if evs.len() == 0 {
        c
    } else {
        backfill_run(backfill_step(c, evs[0]), evs.skip(1))
    }
}

/// The block numbers a whole run publishes, in publish order.
pub open spec fn backfill_published(c: BackfillCoordinator, evs: Seq<BackfillEvent>) -> Seq<u64>
    decreases evs.len(),
{
    if evs.len() == 0 {
        Seq::empty()
    } else {
        match backfill_emits(c, evs[0]) {
            Option::Some(n) => seq![n] + backfill_published(backfill_step(c, evs[0]), evs.skip(1)),
            Option::None => backfill_published(backfill_step(c, evs[0]), evs.skip(1)),
        }
    }
}

impl BackfillCoordinator {
    /// Bounds hold throughout a run: the range start never moves, the
    /// cursor stays inside the range while the task lives, and the retry
    /// counter stays within its budget.
    pub open spec fn wf(self) -> bool {
        &&& self.start_block <= self.next_block
        &&& self.next_block <= self.end_block || backfill_terminal(self.phase)
        &&& self.retries_left <= self.retry_budget
    }

    /// A new task for `[start_block, end_block]`, or `[start_block, tip)`
    /// when no explicit bound is given. An empty explicit range is
    /// exhausted from the start.
    pub fn new(start_block: u64, end_block: Option<u64>, retry_budget: u32) -> (c: Self)
        ensures
            c.wf(),
            c.start_block == start_block,
            c.next_block == start_block,
            c.end_block == match end_block {
                Option::Some(e) => e,
                Option::None => END_BLOCK_OPEN,
            },
            c.retry_budget == retry_budget,
            c.retries_left == retry_budget,
            c.phase == if start_block > c.end_block {
                BackfillPhase::Exhausted
            } else {
                BackfillPhase::Pending
            },
    {
        let end = match end_block {
            Some(e) => e,
            None => END_BLOCK_OPEN,
        };
        let phase = if start_block > end {
            BackfillPhase::Exhausted
        } else {
            BackfillPhase::Pending
        };
        BackfillCoordinator {
            start_block,
            end_block: end,
            next_block: start_block,
            retry_budget,
            retries_left: retry_budget,
            phase,
        }
    }

    /// The number the driver must fetch next.
    pub fn fetch_target(&self) -> (n: u64)
        requires
            self.phase is Fetching || self.phase is Pending,
        ensures
            n == self.next_block,
    {
        self.next_block
    }

    /// The first fetch was issued.
    pub fn on_started(&mut self)
        requires
            old(self).wf(),
            old(self).phase is Pending,
        ensures
            *final(self) == backfill_step(*old(self), BackfillEvent::Started),
            final(self).wf(),
            final(self).phase is Fetching,
    {
        self.phase = BackfillPhase::Fetching;
    }

    /// The fetch for `next_block` returned the block: it must now be
    /// published before anything else moves.
    pub fn on_block_fetched(&mut self)
        requires
            old(self).wf(),
            old(self).phase is Fetching,
        ensures
            *final(self) == backfill_step(*old(self), BackfillEvent::Fetched),
            final(self).wf(),
            final(self).phase is Publishing,
    {
        self.phase = BackfillPhase::Publishing;
    }

    /// The fetch returned `None`: the chain has not produced `next_block`
    /// yet, so the range is exhausted rather than polled or failed.
    pub fn on_block_not_available(&mut self)
        requires
            old(self).wf(),
            old(self).phase is Fetching,
        ensures
            *final(self) == backfill_step(*old(self), BackfillEvent::NotAvailable),
            final(self).wf(),
            final(self).phase is Exhausted,
    {
        self.phase = BackfillPhase::Exhausted;
    }

    /// A transient fetch or publish failure: retry the same block while the
    /// budget lasts, abort once it is spent.
    pub fn on_transient_error(&mut self)
        requires
            old(self).wf(),
            old(self).phase is Fetching,
        ensures
            *final(self) == backfill_step(*old(self), BackfillEvent::TransientError),
            final(self).wf(),
            final(self).next_block == old(self).next_block,
            final(self).phase is Aborted <==> old(self).retries_left == 0,
    {
        if self.retries_left > 0 {
            self.retries_left = self.retries_left - 1;
        } else {
            self.phase = BackfillPhase::Aborted;
        }
    }

    /// A permanent adapter failure: abort and surface the failing block.
    pub fn on_permanent_error(&mut self)
        requires
            old(self).wf(),
            old(self).phase is Fetching,
        ensures
            *final(self) == backfill_step(*old(self), BackfillEvent::PermanentError),
            final(self).wf(),
            final(self).phase is Aborted,
    {
        self.phase = BackfillPhase::Aborted;
    }

    /// The publish of `next_block` completed durably: advance, or finish
    /// the range when its bound was just published.
    pub fn on_published(&mut self)
        requires
            old(self).wf(),
            old(self).phase is Publishing,
        ensures
            *final(self) == backfill_step(*old(self), BackfillEvent::Published),
            final(self).wf(),
            old(self).next_block < old(self).end_block ==> {
                &&& final(self).phase is Fetching
                &&& final(self).next_block == old(self).next_block + 1
            },
            old(self).next_block >= old(self).end_block ==> final(self).phase is Exhausted,
    {
        if self.next_block < self.end_block {
            self.next_block = self.next_block + 1;
            self.retries_left = self.retry_budget;
            self.phase = BackfillPhase::Fetching;
        } else {
            self.phase = BackfillPhase::Exhausted;
        }
    }

    /// Shutdown: only between a completed publish and the next fetch, so a
    /// fetched block is never left unpublished and none goes out twice.
    pub fn cancel(&mut self)
        requires
            old(self).wf(),
            !(old(self).phase is Publishing),
        ensures
            *final(self) == backfill_step(*old(self), BackfillEvent::Cancelled),
            final(self).wf(),
            backfill_terminal(final(self).phase),
    {
        match self.phase {
            BackfillPhase::Pending | BackfillPhase::Fetching => {
                self.phase = BackfillPhase::Cancelled;
            },
            _ => {},
        }
    }

    pub fn is_done(&self) -> (r: bool)
        ensures
            r == backfill_terminal(self.phase),
    {
        match self.phase {
            BackfillPhase::Exhausted | BackfillPhase::Aborted | BackfillPhase::Cancelled => true,
            _ => false,
        }
    }
}

/// A run that starts in a terminal phase publishes nothing.
proof fn lemma_backfill_terminal_publishes_nothing(c: BackfillCoordinator, evs: Seq<BackfillEvent>)
    requires
        backfill_terminal(c.phase),
    ensures
        backfill_published(c, evs) =~= Seq::<u64>::empty(),
    decreases evs.len(),
{
    if evs.len() > 0 {
        assert(backfill_step(c, evs[0]) == c);
        lemma_backfill_terminal_publishes_nothing(c, evs.skip(1));
    }
}

/// Order law of the historical path: whatever the chain and the channel do,
/// the block numbers a single backfill task publishes are strictly
/// increasing with no gaps — the i-th published block is `next_block + i`
/// of the state the run started in.
pub proof fn lemma_backfill_order(c: BackfillCoordinator, evs: Seq<BackfillEvent>)
    ensures
        forall|i: int|
            0 <= i < backfill_published(c, evs).len()
                ==> #[trigger] backfill_published(c, evs)[i] == c.next_block + i,
    decreases evs.len(),
{
    if evs.len() > 0 {
        let c1 = backfill_step(c, evs[0]);
        let p = backfill_published(c, evs);
        let p1 = backfill_published(c1, evs.skip(1));
        lemma_backfill_order(c1, evs.skip(1));
        match backfill_emits(c, evs[0]) {
            Option::Some(n) => {
                assert(p =~= seq![n] + p1);
                if c.next_block < c.end_block {
                    assert(c1.next_block == c.next_block + 1);
                    assert forall|i: int| 0 <= i < p.len() implies p[i] == c.next_block + i by {
                        if i > 0 {
                            assert(p[i] == p1[i - 1]);
                        }
                    }
                } else {
                    assert(backfill_terminal(c1.phase));
                    lemma_backfill_terminal_publishes_nothing(c1, evs.skip(1));
                    assert(p =~= seq![n]);
                }
            },
            Option::None => {
                assert(p =~= p1);
                assert(c1.next_block == c.next_block);
            },
        }
    }
}

} // verus!
