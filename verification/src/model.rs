//! The crawl as a mathematical model.
//!
//! A crawl is a queue of pending work items, a registry of the URLs met, a
//! log of the URLs handed out, and a scheduler. Handing out a wave, merging a
//! worker's outcome and sizing the next wave are functions from one such state
//! to the next. The driver implements these functions; what holds of every
//! crawl is proved of them.

use crate::scheduler::{next_size, BatchState};
use crate::worker::{Cause, Outcome};
use vstd::prelude::*;

verus! {

/// One unit of work as a mathematical value: a URL, and the number of links
/// followed from a seed to reach it.
pub struct Pending {
    pub url: Seq<char>,
    pub depth: nat,
}

/// The URLs of a sequence of work items.
pub open spec fn urls_of(items: Seq<Pending>) -> Seq<Seq<char>> {
    items.map_values(|item: Pending| item.url)
}

/// The queue and the registry after the links of a page are merged into
/// them: each link that the registry does not hold enters the registry and
/// joins the queue at `depth`, in the order of the links. A link met before
/// is dropped, also where it was met a moment ago in the same list.
pub open spec fn enqueue(
    queue: Seq<Pending>,
    seen: Set<Seq<char>>,
    links: Seq<Seq<char>>,
    depth: nat,
) -> (Seq<Pending>, Set<Seq<char>>)
    decreases links.len(),
{
    if links.len() == 0 {
        (queue, seen)
    } else {
        let (earlier, met) = enqueue(queue, seen, links.drop_last(), depth);
        let link = links.last();
        if met.contains(link) {
            (earlier, met)
        } else {
            (earlier.push(Pending { url: link, depth }), met.insert(link))
        }
    }
}

/// The number of results whose outcome is an error.
pub open spec fn failures(results: Seq<(Pending, Outcome)>) -> nat
    decreases results.len(),
{
    if results.len() == 0 {
        0
    } else if results.last().1 is Error {
        failures(results.drop_last()) + 1
    } else {
        failures(results.drop_last())
    }
}

/// There are no more failures than results.
pub proof fn lemma_failures_bounded(results: Seq<(Pending, Outcome)>)
    ensures
        failures(results) <= results.len(),
    decreases results.len(),
{
    if results.len() > 0 {
        lemma_failures_bounded(results.drop_last());
    }
}

/// The state of a crawl as a mathematical value.
pub struct CrawlModel {
    /// The pending work items; the newest is the last.
    pub queue: Seq<Pending>,
    /// The dedup registry: every URL that was ever queued.
    pub seen: Set<Seq<char>>,
    /// The URLs handed out to workers so far, in the order of handing out.
    pub dispatched: Seq<Seq<char>>,
    /// The depth at which pages are no longer explored.
    pub max_depth: nat,
    /// The regime of the scheduler.
    pub state: BatchState,
    /// The wave size that the scheduler allows.
    pub size: nat,
    /// The pages fetched and explored, each with its length in bytes.
    pub pages: Seq<(Seq<char>, nat)>,
    /// The fetches that failed, each with its cause.
    pub errors: Seq<(Seq<char>, Cause)>,
}

impl CrawlModel {
    /// What holds of every crawl: no URL is queued twice, none is queued that
    /// was handed out, none was handed out twice, the registry holds whatever
    /// is queued or was handed out, no queued item lies beyond the maximum
    /// depth, and a wave has room for a worker.
    pub open spec fn wf(self) -> bool {
        &&& urls_of(self.queue).no_duplicates()
        &&& self.dispatched.no_duplicates()
        &&& forall|i: int|
            0 <= i < self.queue.len() ==> {
                &&& self.seen.contains(#[trigger] self.queue[i].url)
                &&& !self.dispatched.contains(self.queue[i].url)
                &&& self.queue[i].depth <= self.max_depth
            }
        &&& forall|i: int|
            0 <= i < self.dispatched.len() ==> self.seen.contains(#[trigger] self.dispatched[i])
        &&& self.size >= 1
    }

    /// The crawl at its start: the seeds queued at depth 0, a seed that occurs
    /// twice only once, and the scheduler at its initial size.
    pub open spec fn start(seeds: Seq<Seq<char>>, max_depth: nat) -> CrawlModel {
        let (queue, seen) = enqueue(Seq::empty(), Set::empty(), seeds, 0);
        CrawlModel {
            queue,
            seen,
            dispatched: Seq::empty(),
            max_depth,
            state: BatchState::Incrementing,
            size: 1,
            pages: Seq::empty(),
            errors: Seq::empty(),
        }
    }

    /// The number of items that the next wave takes: as many as the scheduler
    /// allows, or the whole queue where that is less.
    pub open spec fn wave_len(self) -> nat {
        if self.size <= self.queue.len() {
            self.size
        } else {
            self.queue.len()
        }
    }

    /// The `n` items that leave the queue next: the newest first.
    pub open spec fn wave(self, n: nat) -> Seq<Pending> {
        Seq::new(n, |i: int| self.queue[self.queue.len() - 1 - i])
    }

    /// The crawl after the `n` newest items were handed out.
    pub open spec fn dispatch(self, n: nat) -> CrawlModel {
        CrawlModel {
            queue: self.queue.take(self.queue.len() - n),
            dispatched: self.dispatched + urls_of(self.wave(n)),
            ..self
        }
    }

    /// The crawl after the outcome of the worker for `item` was merged. A
    /// success records the page and queues its links one level deeper, unless
    /// the item lies at the maximum depth; an error is recorded; a bailout
    /// changes nothing.
    pub open spec fn absorb(self, item: Pending, outcome: Outcome) -> CrawlModel {
        match outcome {
            Outcome::Success { body_len, links } => {
                let (queue, seen) = if item.depth < self.max_depth {
                    enqueue(self.queue, self.seen, links, item.depth + 1)
                } else {
                    (self.queue, self.seen)
                };
                CrawlModel { queue, seen, pages: self.pages.push((item.url, body_len)), ..self }
            },
            Outcome::Error { cause } => CrawlModel {
                errors: self.errors.push((item.url, cause)),
                ..self
            },
            Outcome::Bailout => self,
        }
    }

    /// The crawl after the outcomes of the workers for `items` were merged in
    /// the order of the items, where `outcomes` gives the outcome for each.
    pub open spec fn absorb_all(self, items: Seq<Pending>, outcomes: spec_fn(Pending) -> Outcome)
        -> CrawlModel
        decreases items.len(),
    {
        if items.len() == 0 {
            self
        } else {
            self.absorb_all(items.drop_last(), outcomes).absorb(
                items.last(),
                outcomes(items.last()),
            )
        }
    }

    /// The crawl after the results of a wave were merged in the order given.
    pub open spec fn absorb_results(self, results: Seq<(Pending, Outcome)>) -> CrawlModel
        decreases results.len(),
    {
        if results.len() == 0 {
            self
        } else {
            self.absorb_results(results.drop_last()).absorb(results.last().0, results.last().1)
        }
    }

    /// The crawl after a wave with these results: the results are merged in
    /// the order given, and the scheduler sees how many workers there were
    /// and how many of them failed.
    pub open spec fn complete_wave(self, results: Seq<(Pending, Outcome)>) -> CrawlModel {
        self.absorb_results(results).close_wave(results.len() as int, failures(results) as int)
    }

    /// The wave size that the scheduler allows after a wave of `handles_len`
    /// workers of which `error_count` failed.
    pub open spec fn next_wave_size(self, handles_len: int, error_count: int) -> int {
        next_size(self.state, self.size as int, handles_len, error_count)
    }

    /// The crawl after the scheduler has seen a wave of `handles_len` workers
    /// of which `error_count` failed.
    pub open spec fn close_wave(self, handles_len: int, error_count: int) -> CrawlModel {
        CrawlModel { size: self.next_wave_size(handles_len, error_count) as nat, ..self }
    }

    /// The crawl after the caller has put the scheduler under another regime,
    /// at the size it has.
    pub open spec fn with_state(self, state: BatchState) -> CrawlModel {
        CrawlModel { state, ..self }
    }

    /// One pass of the mode without a wave limit: the whole queue is handed
    /// out, newest first, and the outcomes are merged in that order.
    pub open spec fn drain_pass(self, outcomes: spec_fn(Pending) -> Outcome) -> CrawlModel {
        self.dispatch(self.queue.len()).absorb_all(self.wave(self.queue.len()), outcomes)
    }

    /// The crawl after `passes` passes without a wave limit, where
    /// `outcomes(n)` gives the outcomes of pass `n`.
    pub open spec fn drain_passes(
        self,
        outcomes: spec_fn(nat) -> spec_fn(Pending) -> Outcome,
        passes: nat,
    ) -> CrawlModel
        decreases passes,
    {
        if passes == 0 {
            self
        } else {
            self.drain_passes(outcomes, (passes - 1) as nat).drain_pass(
                outcomes((passes - 1) as nat),
            )
        }
    }

    /// Every queued item lies at depth `floor` or deeper.
    pub open spec fn at_least(self, floor: nat) -> bool {
        forall|i: int| 0 <= i < self.queue.len() ==> (#[trigger] self.queue[i]).depth >= floor
    }
}

} // verus!
