//! What holds of every crawl.
//!
//! No URL is handed out twice; a page at the maximum depth adds no work; a
//! crawl whose passes take the whole queue is over after one pass more than
//! its maximum depth; and a crawl among finitely many URLs hands out no more
//! work than there are URLs. All of it is proved of the model of the crawl,
//! which the driver implements.

use crate::markup::Markup;
use crate::model::{enqueue, urls_of, CrawlModel, Pending};
use crate::scheduler::BatchState;
use crate::worker::{page_outcome, Outcome};
use vstd::prelude::*;

verus! {

/// What merging links does to the queue and the registry: the queue grows at
/// its end, by items at the given depth whose URLs were new; the registry
/// grows by those URLs and by nothing else; and a queue without repetition
/// whose URLs the registry held stays so.
pub proof fn lemma_enqueue(
    queue: Seq<Pending>,
    seen: Set<Seq<char>>,
    links: Seq<Seq<char>>,
    depth: nat,
)
    requires
        urls_of(queue).no_duplicates(),
        forall|i: int| 0 <= i < queue.len() ==> seen.contains(#[trigger] queue[i].url),
    ensures
        ({
            let (merged, met) = enqueue(queue, seen, links, depth);
            &&& queue.len() <= merged.len()
            &&& forall|i: int| 0 <= i < queue.len() ==> #[trigger] merged[i] == queue[i]
            &&& forall|i: int|
                queue.len() <= i < merged.len() ==> {
                    &&& (#[trigger] merged[i]).depth == depth
                    &&& !seen.contains(merged[i].url)
                    &&& links.contains(merged[i].url)
                }
            &&& forall|i: int| 0 <= i < merged.len() ==> met.contains(#[trigger] merged[i].url)
            &&& forall|url: Seq<char>| seen.contains(url) ==> met.contains(url)
            &&& forall|url: Seq<char>|
                met.contains(url) ==> seen.contains(url) || exists|i: int|
                    queue.len() <= i < merged.len() && #[trigger] merged[i].url == url
            &&& urls_of(merged).no_duplicates()
        }),
    decreases links.len(),
{
    if links.len() > 0 {
        lemma_enqueue(queue, seen, links.drop_last(), depth);
        let (earlier, met) = enqueue(queue, seen, links.drop_last(), depth);
        let (merged, all) = enqueue(queue, seen, links, depth);
        let link = links.last();
        assert forall|i: int| queue.len() <= i < earlier.len() implies links.contains(
            #[trigger] earlier[i].url,
        ) by {
            let j = choose|j: int|
                0 <= j < links.drop_last().len() && links.drop_last()[j] == earlier[i].url;
            assert(links[j] == earlier[i].url);
        }
        if !met.contains(link) {
            assert(merged == earlier.push(Pending { url: link, depth }));
            assert(links[links.len() - 1] == link);
            assert forall|i: int, j: int|
                0 <= i < merged.len() && 0 <= j < merged.len() && i != j implies urls_of(
                merged,
            )[i] != urls_of(merged)[j] by {
                if i < earlier.len() && j < earlier.len() {
                    assert(urls_of(earlier)[i] != urls_of(earlier)[j]);
                } else if i < earlier.len() {
                    assert(met.contains(earlier[i].url));
                } else {
                    assert(met.contains(earlier[j].url));
                }
            }
            assert forall|url: Seq<char>| all.contains(url) implies seen.contains(url)
                || exists|i: int|
                queue.len() <= i < merged.len() && #[trigger] merged[i].url == url by {
                if url == link {
                    assert(merged[merged.len() - 1].url == url);
                } else if !seen.contains(url) {
                    let i = choose|i: int|
                        queue.len() <= i < earlier.len() && #[trigger] earlier[i].url == url;
                    assert(merged[i].url == url);
                }
            }
        }
    }
}

/// Merging an outcome leaves what is queued in its place: the queue grows at
/// its end, if it grows.
pub proof fn lemma_absorb_extends(crawl: CrawlModel, item: Pending, outcome: Outcome)
    requires
        crawl.wf(),
    ensures
        crawl.absorb(item, outcome).queue.len() >= crawl.queue.len(),
        crawl.absorb(item, outcome).queue.take(crawl.queue.len() as int) == crawl.queue,
{
    match outcome {
        Outcome::Success { body_len, links } => {
            if item.depth < crawl.max_depth {
                lemma_enqueue(crawl.queue, crawl.seen, links, item.depth + 1);
            }
        },
        _ => {},
    }
    assert(crawl.absorb(item, outcome).queue.take(crawl.queue.len() as int) =~= crawl.queue);
}

impl CrawlModel {
    /// A crawl starts in a state of which `wf` holds.
    pub proof fn lemma_start_wf(seeds: Seq<Seq<char>>, max_depth: nat)
        ensures
            CrawlModel::start(seeds, max_depth).wf(),
            CrawlModel::start(seeds, max_depth).at_least(0),
    {
        lemma_enqueue(Seq::empty(), Set::empty(), seeds, 0);
    }

    /// No URL is handed out twice. Of a crawl of which `wf` holds, the items
    /// of the next wave bear URLs that were never handed out before and that
    /// differ from one another, and `wf` holds again once they are handed
    /// out.
    pub proof fn lemma_dispatch_once(self, n: nat)
        requires
            self.wf(),
            n <= self.queue.len(),
        ensures
            self.dispatch(n).wf(),
            forall|i: int|
                0 <= i < n ==> !self.dispatched.contains(#[trigger] self.wave(n)[i].url),
            urls_of(self.wave(n)).no_duplicates(),
    {
        let wave = self.wave(n);
        let after = self.dispatch(n);
        assert forall|i: int, j: int| 0 <= i < n && 0 <= j < n && i != j implies urls_of(wave)[i]
            != urls_of(wave)[j] by {
            assert(urls_of(self.queue)[self.queue.len() - 1 - i] != urls_of(
                self.queue,
            )[self.queue.len() - 1 - j]);
        }
        assert forall|i: int, j: int|
            0 <= i < after.dispatched.len() && 0 <= j < after.dispatched.len() && i
                != j implies after.dispatched[i] != after.dispatched[j] by {
            let old_len = self.dispatched.len() as int;
            if i < old_len && j < old_len {
            } else if i < old_len {
                assert(after.dispatched[j] == wave[j - old_len].url);
                assert(self.dispatched.contains(self.dispatched[i]));
            } else if j < old_len {
                assert(after.dispatched[i] == wave[i - old_len].url);
                assert(self.dispatched.contains(self.dispatched[j]));
            } else {
                assert(urls_of(wave)[i - old_len] != urls_of(wave)[j - old_len]);
            }
        }
        assert forall|i: int, j: int|
            0 <= i < after.queue.len() && 0 <= j < after.queue.len() && i != j implies urls_of(
            after.queue,
        )[i] != urls_of(after.queue)[j] by {
            assert(urls_of(self.queue)[i] != urls_of(self.queue)[j]);
        }
        assert forall|i: int| 0 <= i < after.queue.len() implies !after.dispatched.contains(
            #[trigger] after.queue[i].url,
        ) by {
            if after.dispatched.contains(after.queue[i].url) {
                let j = choose|j: int|
                    0 <= j < after.dispatched.len() && after.dispatched[j] == after.queue[i].url;
                let old_len = self.dispatched.len() as int;
                if j < old_len {
                    assert(self.dispatched.contains(self.queue[i].url));
                } else {
                    assert(urls_of(self.queue)[i] != urls_of(self.queue)[self.queue.len() - 1 - (j
                        - old_len)]);
                }
            }
        }
        assert forall|i: int| 0 <= i < after.dispatched.len() implies after.seen.contains(
            #[trigger] after.dispatched[i],
        ) by {
            let old_len = self.dispatched.len() as int;
            if i >= old_len {
                assert(after.dispatched[i] == self.queue[self.queue.len() - 1 - (i
                    - old_len)].url);
            }
        }
    }

    /// Merging an outcome keeps `wf`, whatever the outcome.
    pub proof fn lemma_absorb_wf(self, item: Pending, outcome: Outcome)
        requires
            self.wf(),
        ensures
            self.absorb(item, outcome).wf(),
    {
        match outcome {
            Outcome::Success { body_len, links } => {
                if item.depth < self.max_depth {
                    lemma_enqueue(self.queue, self.seen, links, item.depth + 1);
                    let after = self.absorb(item, outcome);
                    assert forall|i: int|
                        0 <= i < after.queue.len() implies !after.dispatched.contains(
                        #[trigger] after.queue[i].url,
                    ) by {
                        if i < self.queue.len() {
                            assert(after.queue[i] == self.queue[i]);
                        } else if self.dispatched.contains(after.queue[i].url) {
                            let j = choose|j: int|
                                0 <= j < self.dispatched.len() && self.dispatched[j]
                                    == after.queue[i].url;
                            assert(self.seen.contains(self.dispatched[j]));
                        }
                    }
                    assert forall|i: int| 0 <= i < after.queue.len() implies (
                    #[trigger] after.queue[i]).depth <= after.max_depth by {
                        if i < self.queue.len() {
                            assert(after.queue[i] == self.queue[i]);
                            assert(self.seen.contains(self.queue[i].url));
                        }
                    }
                }
            },
            _ => {},
        }
    }

    /// The scheduler's step keeps `wf`: a wave always has room for a worker.
    pub proof fn lemma_close_wave_wf(self, handles_len: int, error_count: int)
        requires
            self.wf(),
        ensures
            self.close_wave(handles_len, error_count).wf(),
            self.close_wave(handles_len, error_count).size == self.next_wave_size(
                handles_len,
                error_count,
            ),
    {
    }

    /// A page at the maximum depth adds no work. Where its body arrived, the
    /// worker's outcome for it is a bailout, whatever a parse of the body
    /// would come to, and merging that leaves the crawl as it was; and
    /// whatever outcome is merged for an item at the maximum depth, the queue
    /// and the registry stay as they were.
    pub proof fn lemma_depth_bound(
        self,
        item: Pending,
        seen: Set<Seq<char>>,
        body_len: nat,
        parsed: Result<Seq<Markup>, Seq<char>>,
        outcome: Outcome,
    )
        requires
            item.depth == self.max_depth,
        ensures
            page_outcome(seen, item.url, item.depth, self.max_depth, body_len, parsed)
                is Bailout,
            self.absorb(
                item,
                page_outcome(seen, item.url, item.depth, self.max_depth, body_len, parsed),
            ) == self,
            self.absorb(item, outcome).queue == self.queue,
            self.absorb(item, outcome).seen == self.seen,
    {
    }

    /// One step of a crawl: a wave is handed out, an outcome is merged, the
    /// scheduler sizes the next wave, or the caller changes its regime.
    pub open spec fn step(self, next: CrawlModel) -> bool {
        ||| exists|n: nat| n <= self.queue.len() && next == #[trigger] self.dispatch(n)
        ||| exists|item: Pending, outcome: Outcome| next == #[trigger] self.absorb(item, outcome)
        ||| exists|handles_len: int, error_count: int|
            next == #[trigger] self.close_wave(handles_len, error_count)
        ||| exists|state: BatchState| next == #[trigger] self.with_state(state)
    }

    /// The states are those of one crawl from its start on: the first is the
    /// start from some seeds, and each next one is a step further.
    pub open spec fn is_run(states: Seq<CrawlModel>, seeds: Seq<Seq<char>>, max_depth: nat)
        -> bool {
        &&& states.len() > 0
        &&& states[0] == CrawlModel::start(seeds, max_depth)
        &&& forall|i: int| 0 <= i < states.len() - 1 ==> (#[trigger] states[i]).step(states[i + 1])
    }

    /// Every step keeps `wf`.
    pub proof fn lemma_step_wf(self, next: CrawlModel)
        requires
            self.wf(),
            self.step(next),
        ensures
            next.wf(),
    {
        if exists|n: nat| n <= self.queue.len() && next == #[trigger] self.dispatch(n) {
            let n = choose|n: nat| n <= self.queue.len() && next == #[trigger] self.dispatch(n);
            self.lemma_dispatch_once(n);
        } else if exists|item: Pending, outcome: Outcome|
            next == #[trigger] self.absorb(item, outcome) {
            let (item, outcome) = choose|item: Pending, outcome: Outcome|
                next == #[trigger] self.absorb(item, outcome);
            self.lemma_absorb_wf(item, outcome);
        } else if exists|handles_len: int, error_count: int|
            next == #[trigger] self.close_wave(handles_len, error_count) {
            let (handles_len, error_count) = choose|handles_len: int, error_count: int|
                next == #[trigger] self.close_wave(handles_len, error_count);
            self.lemma_close_wave_wf(handles_len, error_count);
        }
    }

    /// In every state of every crawl, no URL was handed out twice, and none
    /// that was handed out is queued again: whatever the registry holds is
    /// handed to a worker at most once.
    pub proof fn lemma_never_dispatched_twice(
        states: Seq<CrawlModel>,
        seeds: Seq<Seq<char>>,
        max_depth: nat,
        at: int,
    )
        requires
            CrawlModel::is_run(states, seeds, max_depth),
            0 <= at < states.len(),
        ensures
            states[at].wf(),
            states[at].dispatched.no_duplicates(),
            forall|i: int|
                0 <= i < states[at].queue.len() ==> !states[at].dispatched.contains(
                    #[trigger] states[at].queue[i].url,
                ),
        decreases at,
    {
        if at == 0 {
            CrawlModel::lemma_start_wf(seeds, max_depth);
        } else {
            CrawlModel::lemma_never_dispatched_twice(states, seeds, max_depth, at - 1);
            states[at - 1].lemma_step_wf(states[at]);
        }
    }

    /// Merging the outcomes of items at `floor` or deeper into a crawl whose
    /// queue lies deeper than `floor` leaves the queue deeper than `floor`.
    pub proof fn lemma_absorb_all(
        self,
        items: Seq<Pending>,
        outcomes: spec_fn(Pending) -> Outcome,
        floor: nat,
    )
        requires
            self.wf(),
            self.at_least(floor + 1),
            forall|i: int| 0 <= i < items.len() ==> (#[trigger] items[i]).depth >= floor,
        ensures
            self.absorb_all(items, outcomes).wf(),
            self.absorb_all(items, outcomes).at_least(floor + 1),
        decreases items.len(),
    {
        if items.len() > 0 {
            self.lemma_absorb_all(items.drop_last(), outcomes, floor);
            let before = self.absorb_all(items.drop_last(), outcomes);
            let item = items.last();
            before.lemma_absorb_wf(item, outcomes(item));
            match outcomes(item) {
                Outcome::Success { body_len, links } => {
                    if item.depth < before.max_depth {
                        lemma_enqueue(before.queue, before.seen, links, item.depth + 1);
                        let after = before.absorb(item, outcomes(item));
                        assert forall|i: int| 0 <= i < after.queue.len() implies (
                        #[trigger] after.queue[i]).depth >= floor + 1 by {
                            if i < before.queue.len() {
                                assert(after.queue[i] == before.queue[i]);
                            }
                        }
                    }
                },
                _ => {},
            }
        }
    }

    /// A pass that takes the whole queue moves the crawl one level down: if
    /// nothing queued lay above `floor`, nothing queued after the pass lies
    /// above `floor + 1`.
    pub proof fn lemma_drain_pass(self, outcomes: spec_fn(Pending) -> Outcome, floor: nat)
        requires
            self.wf(),
            self.at_least(floor),
        ensures
            self.drain_pass(outcomes).wf(),
            self.drain_pass(outcomes).at_least(floor + 1),
    {
        let n = self.queue.len();
        self.lemma_dispatch_once(n);
        let emptied = self.dispatch(n);
        assert(emptied.queue.len() == 0);
        emptied.lemma_absorb_all(self.wave(n), outcomes, floor);
    }

    /// After `passes` passes that take the whole queue, nothing queued lies
    /// above depth `passes`.
    pub proof fn lemma_drain_passes(
        self,
        outcomes: spec_fn(nat) -> spec_fn(Pending) -> Outcome,
        passes: nat,
    )
        requires
            self.wf(),
        ensures
            self.drain_passes(outcomes, passes).wf(),
            self.drain_passes(outcomes, passes).at_least(passes),
            self.drain_passes(outcomes, passes).max_depth == self.max_depth,
        decreases passes,
    {
        if passes > 0 {
            self.lemma_drain_passes(outcomes, (passes - 1) as nat);
            let before = self.drain_passes(outcomes, (passes - 1) as nat);
            before.lemma_drain_pass(outcomes((passes - 1) as nat), (passes - 1) as nat);
            before.dispatch(before.queue.len()).lemma_absorb_all_keeps_depth(
                before.wave(before.queue.len()),
                outcomes((passes - 1) as nat),
            );
        }
    }

    /// Merging outcomes leaves the maximum depth as it was.
    pub proof fn lemma_absorb_all_keeps_depth(
        self,
        items: Seq<Pending>,
        outcomes: spec_fn(Pending) -> Outcome,
    )
        ensures
            self.absorb_all(items, outcomes).max_depth == self.max_depth,
        decreases items.len(),
    {
        if items.len() > 0 {
            self.lemma_absorb_all_keeps_depth(items.drop_last(), outcomes);
        }
    }

    /// Where every pass takes the whole queue, a crawl is over after at most
    /// one pass more than its maximum depth, whatever the seeds are and
    /// whatever the pages hold: the queue is empty by then, and stays empty.
    pub proof fn lemma_drain_terminates(
        seeds: Seq<Seq<char>>,
        max_depth: nat,
        outcomes: spec_fn(nat) -> spec_fn(Pending) -> Outcome,
        passes: nat,
    )
        requires
            passes > max_depth,
        ensures
            CrawlModel::start(seeds, max_depth).drain_passes(outcomes, passes).queue.len() == 0,
    {
        let start = CrawlModel::start(seeds, max_depth);
        CrawlModel::lemma_start_wf(seeds, max_depth);
        start.lemma_drain_passes(outcomes, passes);
        let end = start.drain_passes(outcomes, passes);
        if end.queue.len() > 0 {
            assert(end.queue[0].depth >= passes);
            assert(end.seen.contains(end.queue[0].url));
            assert(end.queue[0].depth <= end.max_depth);
        }
    }

    /// A crawl of finitely many URLs ends. Among URLs that all lie in a finite
    /// set, the items handed out and the items queued are together no more
    /// than the set has members; and since every wave of a crawl with work
    /// left hands out at least one item, there are no more waves than that.
    pub proof fn lemma_work_bounded(self, universe: Set<Seq<char>>)
        requires
            self.wf(),
            universe.finite(),
            self.seen.subset_of(universe),
        ensures
            self.dispatched.len() + self.queue.len() <= universe.len(),
    {
        let queued = urls_of(self.queue);
        let all = self.dispatched + queued;
        assert forall|i: int, j: int|
            0 <= i < all.len() && 0 <= j < all.len() && i != j implies all[i] != all[j] by {
            let handed = self.dispatched.len() as int;
            if i < handed && j < handed {
            } else if i < handed {
                assert(queued[j - handed] == self.queue[j - handed].url);
                assert(self.dispatched.contains(self.dispatched[i]));
            } else if j < handed {
                assert(queued[i - handed] == self.queue[i - handed].url);
                assert(self.dispatched.contains(self.dispatched[j]));
            } else {
                assert(queued[i - handed] != queued[j - handed]);
            }
        }
        all.unique_seq_to_set();
        assert forall|url: Seq<char>| all.to_set().contains(url) implies universe.contains(
            url,
        ) by {
            let i = choose|i: int| 0 <= i < all.len() && all[i] == url;
            let handed = self.dispatched.len() as int;
            if i < handed {
                assert(self.seen.contains(self.dispatched[i]));
            } else {
                assert(self.seen.contains(self.queue[i - handed].url));
            }
        }
        vstd::set_lib::lemma_len_subset(all.to_set(), universe);
    }

    /// Merging an outcome whose links lie in a set of URLs keeps the registry
    /// within that set.
    pub proof fn lemma_absorb_within(
        self,
        item: Pending,
        outcome: Outcome,
        universe: Set<Seq<char>>,
    )
        requires
            self.wf(),
            self.seen.subset_of(universe),
            outcome matches Outcome::Success { links, .. } ==> forall|i: int|
                0 <= i < links.len() ==> universe.contains(#[trigger] links[i]),
        ensures
            self.absorb(item, outcome).seen.subset_of(universe),
    {
        match outcome {
            Outcome::Success { body_len, links } => {
                if item.depth < self.max_depth {
                    lemma_enqueue(self.queue, self.seen, links, item.depth + 1);
                    let (merged, met) = enqueue(self.queue, self.seen, links, item.depth + 1);
                    assert forall|url: Seq<char>| met.contains(url) implies universe.contains(
                        url,
                    ) by {
                        if !self.seen.contains(url) {
                            let i = choose|i: int|
                                self.queue.len() <= i < merged.len() && #[trigger] merged[i].url
                                    == url;
                            assert(links.contains(merged[i].url));
                        }
                    }
                }
            },
            _ => {},
        }
    }

    /// While work is queued, the next wave takes at least one item, and never
    /// more than the scheduler allows.
    pub proof fn lemma_wave_progress(self)
        requires
            self.wf(),
        ensures
            self.wave_len() <= self.size,
            self.wave_len() <= self.queue.len(),
            self.queue.len() > 0 ==> self.wave_len() >= 1,
    {
    }
}

} // verus!
