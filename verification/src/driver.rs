//! The crawl driver: the work queue and what each wave does to it.
//!
//! The driver owns the queue of pending work items, the dedup registry and the
//! scheduler. It hands out a wave of items, newest first, takes back the
//! outcome of every worker, enters the links that are new into the registry
//! and the queue, and lets the scheduler size the next wave. The fetches
//! between handing out and taking back are the caller's.
//!
//! `Crawl` implements the model of the crawl, `CrawlModel`: every operation
//! says which step of the model it takes.

use crate::address::Url;
use crate::extract::forms;
use crate::model::{enqueue, failures, urls_of, CrawlModel, Pending};
use crate::proofs::lemma_absorb_extends;
use crate::registry::SeenSet;
use crate::scheduler::{Batch, BatchState};
use crate::worker::{Cause, FetchError, FetchOutcome, Outcome};
use vstd::prelude::*;

verus! {

/// One unit of work: a URL, and the number of links followed from a seed to
/// reach it.
#[derive(Debug, PartialEq, Eq)]
pub struct WorkItem {
    pub url: Url,
    pub depth: u32,
}

impl View for WorkItem {
    type V = Pending;

    open spec fn view(&self) -> Pending {
        Pending { url: self.url@, depth: self.depth as nat }
    }
}

/// The mathematical values of a sequence of work items.
pub open spec fn pending(items: Seq<WorkItem>) -> Seq<Pending> {
    items.map_values(|item: WorkItem| item@)
}

/// The mathematical values of the recorded pages.
pub open spec fn page_records(pages: Seq<(Url, usize)>) -> Seq<(Seq<char>, nat)> {
    pages.map_values(|page: (Url, usize)| (page.0@, page.1 as nat))
}

/// The mathematical values of the recorded errors.
pub open spec fn error_records(errors: Seq<(Url, FetchError)>) -> Seq<(Seq<char>, Cause)> {
    errors.map_values(|error: (Url, FetchError)| (error.0@, error.1@))
}

/// The mathematical values of the results of a wave.
pub open spec fn result_models(results: Seq<(WorkItem, FetchOutcome)>) -> Seq<(Pending, Outcome)> {
    results.map_values(|result: (WorkItem, FetchOutcome)| (result.0@, result.1@))
}

/// The number of results whose outcome is an error.
pub fn count_failures(results: &Vec<(WorkItem, FetchOutcome)>) -> (count: usize)
    ensures
        count == failures(result_models(results@)),
{
    let ghost all = result_models(results@);
    let mut count: usize = 0;
    let mut i: usize = 0;
    assert(all.take(0) == Seq::<(Pending, Outcome)>::empty());
    while i < results.len()
        invariant
            i <= results.len(),
            all == result_models(results@),
            count == failures(all.take(i as int)),
            count <= i,
        decreases results.len() - i,
    {
        assert(all.take(i + 1).drop_last() == all.take(i as int));
        assert(all.take(i + 1).last() == (results@[i as int].0@, results@[i as int].1@));
        if let FetchOutcome::Error { .. } = &results[i].1 {
            count += 1;
        }
        i += 1;
    }
    assert(all.take(results.len() as int) == all);
    count
}

/// Merges the links into the queue and the registry: each link that is new
/// to the registry enters it and is queued at `depth`.
fn enqueue_links(queue: &mut Vec<WorkItem>, registry: &mut SeenSet, links: &Vec<Url>, depth: u32)
    ensures
        (pending(final(queue)@), final(registry)@) == enqueue(
            pending(old(queue)@),
            old(registry)@,
            forms(links@),
            depth as nat,
        ),
{
    let mut i: usize = 0;
    assert(forms(links@).take(0) == Seq::<Seq<char>>::empty());
    while i < links.len()
        invariant
            i <= links.len(),
            (pending(queue@), registry@) == enqueue(
                pending(old(queue)@),
                old(registry)@,
                forms(links@).take(i as int),
                depth as nat,
            ),
        decreases links.len() - i,
    {
        let ghost all = forms(links@);
        let ghost before = queue@;
        assert(all.take(i + 1).drop_last() == all.take(i as int));
        assert(all.take(i + 1).last() == links@[i as int]@);
        if registry.claim(links[i].clone()) {
            queue.push(WorkItem { url: links[i].clone(), depth });
            assert(pending(queue@) == pending(before).push(
                Pending { url: links@[i as int]@, depth: depth as nat },
            ));
        }
        i += 1;
    }
    assert(forms(links@).take(links.len() as int) == forms(links@));
}

/// Takes the `n` newest items off a stack, the newest first.
pub fn take_newest<T>(stack: &mut Vec<T>, n: usize) -> (taken: Vec<T>)
    requires
        n <= old(stack).len(),
    ensures
        taken.len() == n,
        forall|i: int| 0 <= i < n ==> #[trigger] taken@[i] == old(stack)@[old(stack).len() - 1 - i],
        final(stack)@ == old(stack)@.take(old(stack).len() - n),
{
    let mut taken: Vec<T> = Vec::new();
    assert(stack@.take(stack.len() as int) == stack@);
    while taken.len() < n
        invariant
            taken.len() <= n <= old(stack).len(),
            forall|i: int|
                0 <= i < taken.len() ==> #[trigger] taken@[i] == old(stack)@[old(stack).len() - 1
                    - i],
            stack@ == old(stack)@.take(old(stack).len() - taken.len()),
        decreases n - taken.len(),
    {
        let item = stack.pop().unwrap();
        taken.push(item);
    }
    taken
}

/// Takes a chunk off a stack of pending work: the newest items first, `limit`
/// of them, or all where there are fewer.
pub fn take_chunk<T>(stack: &mut Vec<T>, limit: usize) -> (chunk: Vec<T>)
    ensures
        chunk.len() == if limit <= old(stack).len() {
            limit
        } else {
            old(stack).len()
        },
        forall|i: int|
            0 <= i < chunk.len() ==> #[trigger] chunk@[i] == old(stack)@[old(stack).len() - 1 - i],
        final(stack)@ == old(stack)@.take(old(stack).len() - chunk.len()),
{
    let n = if limit <= stack.len() {
        limit
    } else {
        stack.len()
    };
    take_newest(stack, n)
}

/// What a wave came to: the numbers that the scheduler and the report read.
#[derive(Clone, Copy, Debug, PartialEq, Eq, Structural)]
pub struct WaveResult {
    /// The workers of the wave.
    pub workers: usize,
    /// The workers whose outcome was an error.
    pub errors: usize,
    /// The work items that the wave added to the queue.
    pub discovered: usize,
}

/// A crawl in progress: the work queue, the dedup registry, the scheduler,
/// and the record of pages and errors.
pub struct Crawl {
    queue: Vec<WorkItem>,
    registry: SeenSet,
    batch: Batch,
    max_depth: u32,
    pages: Vec<(Url, usize)>,
    errors: Vec<(Url, FetchError)>,
    dispatched: Ghost<Seq<Seq<char>>>,
}

impl View for Crawl {
    type V = CrawlModel;

    closed spec fn view(&self) -> CrawlModel {
        CrawlModel {
            queue: pending(self.queue@),
            seen: self.registry@,
            dispatched: self.dispatched@,
            max_depth: self.max_depth as nat,
            state: self.batch.state,
            size: self.batch.size as nat,
            pages: page_records(self.pages@),
            errors: error_records(self.errors@),
        }
    }
}

impl Crawl {
    #[verifier::type_invariant]
    spec fn inv(self) -> bool {
        self@.wf()
    }

    /// A crawl that starts from the seeds, queued at depth 0. Pages are
    /// explored for links while they lie fewer than `max_depth` links from a
    /// seed. A seed that occurs twice is queued once.
    pub fn new(seeds: &Vec<Url>, max_depth: u32) -> (crawl: Crawl)
        ensures
            crawl@ == CrawlModel::start(forms(seeds@), max_depth as nat),
            crawl@.wf(),
    {
        let mut queue: Vec<WorkItem> = Vec::new();
        let mut registry = SeenSet::new();
        assert(pending(queue@) == Seq::<Pending>::empty());
        enqueue_links(&mut queue, &mut registry, seeds, 0);
        proof {
            CrawlModel::lemma_start_wf(forms(seeds@), max_depth as nat);
        }
        let pages: Vec<(Url, usize)> = Vec::new();
        let errors: Vec<(Url, FetchError)> = Vec::new();
        assert(page_records(pages@) == Seq::<(Seq<char>, nat)>::empty());
        assert(error_records(errors@) == Seq::<(Seq<char>, Cause)>::empty());
        Crawl {
            queue,
            registry,
            batch: Batch::new(),
            max_depth,
            pages,
            errors,
            dispatched: Ghost(Seq::empty()),
        }
    }

    /// Moves the crawl out and leaves an empty one behind.
    fn take(&mut self) -> (taken: Crawl)
        ensures
            taken@ == old(self)@,
            taken@.wf(),
    {
        proof {
            use_type_invariant(&*self);
        }
        let mut taken = Crawl::new(&Vec::new(), 0);
        core::mem::swap(self, &mut taken);
        taken
    }

    /// Hands out the `n` newest items of the queue.
    fn hand_out(&mut self, n: usize) -> (wave: Vec<WorkItem>)
        requires
            n <= old(self)@.queue.len(),
        ensures
            pending(wave@) == old(self)@.wave(n as nat),
            final(self)@ == old(self)@.dispatch(n as nat),
            final(self)@.wf(),
            forall|i: int|
                0 <= i < wave.len() ==> !old(self)@.dispatched.contains(#[trigger] wave@[i].url@),
    {
        let ghost before = self@;
        let taken = self.take();
        let Crawl { mut queue, registry, batch, max_depth, pages, errors, dispatched } = taken;
        let wave = take_newest(&mut queue, n);
        proof {
            before.lemma_dispatch_once(n as nat);
            assert(pending(wave@) == before.wave(n as nat));
            assert(pending(queue@) == before.queue.take(before.queue.len() - n));
            assert forall|i: int| 0 <= i < wave.len() implies !before.dispatched.contains(
                #[trigger] wave@[i].url@,
            ) by {
                assert(before.wave(n as nat)[i].url == wave@[i].url@);
            }
        }
        *self = Crawl {
            queue,
            registry,
            batch,
            max_depth,
            pages,
            errors,
            dispatched: Ghost(before.dispatched + urls_of(before.wave(n as nat))),
        };
        wave
    }

    /// The next wave: as many of the newest queued items as the scheduler
    /// allows, the newest first. The items leave the queue for good; none of
    /// them bears a URL that was handed out before.
    pub fn next_wave(&mut self) -> (wave: Vec<WorkItem>)
        ensures
            pending(wave@) == old(self)@.wave(old(self)@.wave_len()),
            final(self)@ == old(self)@.dispatch(old(self)@.wave_len()),
            final(self)@.wf(),
            forall|i: int|
                0 <= i < wave.len() ==> !old(self)@.dispatched.contains(#[trigger] wave@[i].url@),
    {
        let n = if self.batch.size <= self.queue.len() {
            self.batch.size
        } else {
            self.queue.len()
        };
        self.hand_out(n)
    }

    /// The whole queue, the newest item first: the pass of the mode that
    /// knows no wave limit.
    pub fn drain(&mut self) -> (wave: Vec<WorkItem>)
        ensures
            pending(wave@) == old(self)@.wave(old(self)@.queue.len()),
            final(self)@ == old(self)@.dispatch(old(self)@.queue.len()),
            final(self)@.wf(),
            forall|i: int|
                0 <= i < wave.len() ==> !old(self)@.dispatched.contains(#[trigger] wave@[i].url@),
    {
        let n = self.queue.len();
        self.hand_out(n)
    }

    /// Merges the outcome of the worker for `item`: a success records the
    /// page and queues those of its links that are new, one level deeper; an
    /// error is recorded with its cause; a bailout leaves the crawl as it is.
    /// An item at the maximum depth never adds work.
    pub fn absorb(&mut self, item: &WorkItem, outcome: FetchOutcome)
        ensures
            final(self)@ == old(self)@.absorb(item@, outcome@),
            final(self)@.wf(),
    {
        let ghost before = self@;
        let taken = self.take();
        let Crawl { mut queue, mut registry, batch, max_depth, mut pages, mut errors, dispatched } =
            taken;
        proof {
            before.lemma_absorb_wf(item@, outcome@);
        }
        match outcome {
            FetchOutcome::Success { body_len, links } => {
                let ghost pages_before = pages@;
                pages.push((item.url.clone(), body_len));
                assert(page_records(pages@) == page_records(pages_before).push(
                    (item.url@, body_len as nat),
                ));
                if item.depth < max_depth {
                    enqueue_links(&mut queue, &mut registry, &links, item.depth + 1);
                }
            },
            FetchOutcome::Error { cause } => {
                let ghost errors_before = errors@;
                let ghost reason = cause@;
                errors.push((item.url.clone(), cause));
                assert(error_records(errors@) == error_records(errors_before).push(
                    (item.url@, reason),
                ));
            },
            FetchOutcome::Bailout => {},
        }
        *self = Crawl { queue, registry, batch, max_depth, pages, errors, dispatched };
    }

    /// Lets the scheduler see a finished wave of `handles_len` workers of
    /// which `error_count` failed, and sizes the next wave.
    pub fn close_wave(&mut self, handles_len: usize, error_count: usize)
        requires
            old(self)@.next_wave_size(handles_len as int, error_count as int) <= usize::MAX,
        ensures
            final(self)@ == old(self)@.close_wave(handles_len as int, error_count as int),
            final(self)@.wf(),
    {
        let ghost before = self@;
        let taken = self.take();
        let Crawl { queue, registry, batch, max_depth, pages, errors, dispatched } = taken;
        proof {
            before.lemma_close_wave_wf(handles_len as int, error_count as int);
        }
        *self = Crawl {
            queue,
            registry,
            batch: batch.after_wave(handles_len, error_count),
            max_depth,
            pages,
            errors,
            dispatched,
        };
    }

    /// Ends a wave: merges the result of every worker in the order given,
    /// counts the workers that failed, and lets the scheduler size the next
    /// wave from the two counts.
    pub fn complete_wave(&mut self, results: Vec<(WorkItem, FetchOutcome)>) -> (summary:
        WaveResult)
        requires
            old(self)@.next_wave_size(
                results.len() as int,
                failures(result_models(results@)) as int,
            ) <= usize::MAX,
        ensures
            final(self)@ == old(self)@.complete_wave(result_models(results@)),
            final(self)@.wf(),
            summary.workers == results.len(),
            summary.errors == failures(result_models(results@)),
            summary.discovered == final(self)@.queue.len() - old(self)@.queue.len(),
            final(self)@.queue.take(old(self)@.queue.len() as int) == old(self)@.queue,
    {
        let ghost before = self@;
        let ghost all = result_models(results@);
        let workers = results.len();
        let errors = count_failures(&results);
        let queued = self.queue.len();
        proof {
            use_type_invariant(&*self);
            assert(all.take(0) == Seq::<(Pending, Outcome)>::empty());
            assert(before.queue.take(before.queue.len() as int) == before.queue);
        }
        for result in it: results.into_iter()
            invariant
                result_models(it.seq()) == all,
                self@.wf(),
                self@ == before.absorb_results(all.take(it.index() as int)),
                self@.state == before.state,
                self@.size == before.size,
                self@.queue.len() >= before.queue.len(),
                self@.queue.take(before.queue.len() as int) == before.queue,
        {
            let ghost i = it.index() as int;
            proof {
                assert(all.take(i + 1).drop_last() == all.take(i));
                assert(all.take(i + 1).last() == (result.0@, result.1@));
                lemma_absorb_extends(self@, result.0@, result.1@);
            }
            let ghost merged = self@.queue;
            let (item, outcome) = result;
            self.absorb(&item, outcome);
            assert(self@.queue.take(before.queue.len() as int) == self@.queue.take(
                merged.len() as int,
            ).take(before.queue.len() as int));
        }
        assert(all.take(all.len() as int) == all);
        self.close_wave(workers, errors);
        WaveResult { workers, errors, discovered: self.queue.len() - queued }
    }

    /// Puts the scheduler under another regime, at the size it has. The
    /// scheduler never leaves a regime by itself: when to go from the
    /// conservative ramp to doubling, or to settle, is the caller's decision.
    pub fn set_state(&mut self, state: BatchState)
        ensures
            final(self)@ == old(self)@.with_state(state),
            final(self)@.wf(),
    {
        let taken = self.take();
        let Crawl { queue, registry, batch, max_depth, pages, errors, dispatched } = taken;
        *self = Crawl {
            queue,
            registry,
            batch: batch.with_state(state),
            max_depth,
            pages,
            errors,
            dispatched,
        };
    }

    /// Whether the scheduler can take a wave of `handles_len` workers of which
    /// `error_count` failed: whether the size of the next wave fits the
    /// machine word.
    pub fn can_close_wave(&self, handles_len: usize, error_count: usize) -> (fits: bool)
        ensures
            fits == (self@.next_wave_size(handles_len as int, error_count as int)
                <= usize::MAX),
    {
        self.batch.checked_after_wave(handles_len, error_count).is_some()
    }

    /// Ends the crawl and gives up its record: the pages fetched and
    /// explored, each with its length in bytes, and the fetches that failed,
    /// each with its cause.
    pub fn into_report(self) -> (report: (Vec<(Url, usize)>, Vec<(Url, FetchError)>))
        ensures
            page_records(report.0@) == self@.pages,
            error_records(report.1@) == self@.errors,
    {
        (self.pages, self.errors)
    }

    /// Whether the crawl is over: nothing is queued.
    pub fn is_done(&self) -> (done: bool)
        ensures
            done == (self@.queue.len() == 0),
            self@.wf(),
    {
        proof {
            use_type_invariant(self);
        }
        self.queue.len() == 0
    }

    /// The number of queued work items.
    pub fn queue_len(&self) -> (len: usize)
        ensures
            len == self@.queue.len(),
    {
        self.queue.len()
    }

    /// The number of distinct URLs met so far.
    pub fn seen_len(&self) -> (len: usize)
        ensures
            len == self@.seen.len(),
            self@.seen.finite(),
    {
        self.registry.len()
    }

    /// The scheduler's state.
    pub fn batch(&self) -> (batch: Batch)
        ensures
            batch.state == self@.state,
            batch.size == self@.size,
            batch.size >= 1,
    {
        proof {
            use_type_invariant(self);
        }
        self.batch
    }

    /// The depth at which pages are no longer explored.
    pub fn max_depth(&self) -> (depth: u32)
        ensures
            depth == self@.max_depth,
    {
        self.max_depth
    }

    /// The registry of the crawl, for workers to read.
    pub fn registry(&self) -> (registry: &SeenSet)
        ensures
            registry@ == self@.seen,
    {
        &self.registry
    }

    /// The pages fetched and explored so far, each with its length in bytes.
    pub fn pages(&self) -> (pages: &Vec<(Url, usize)>)
        ensures
            page_records(pages@) == self@.pages,
    {
        &self.pages
    }

    /// The fetches that failed so far, each with its cause.
    pub fn errors(&self) -> (errors: &Vec<(Url, FetchError)>)
        ensures
            error_records(errors@) == self@.errors,
    {
        &self.errors
    }
}

} // verus!
