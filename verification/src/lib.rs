//! Adaptive-concurrency, depth-bounded web crawling: the decisions of a crawl,
//! stated and proved.
//!
//! The crate holds everything a crawler decides and computes between two
//! network operations: how many fetches the next wave may start, which links a
//! page offers, which of them were met before, what a finished fetch adds to
//! the work queue, and whether a failed request is tried again. The network
//! itself stays with the caller, who performs the fetches and hands the
//! outcomes back.
//!
//! From the leaves to the root:
//!
//! - [`address`]: absolute URLs in canonical form;
//! - [`markup`]: the document tree of a page;
//! - [`extract`]: the link extractor, a walk of the document tree;
//! - [`selection`]: link extraction by CSS selection instead;
//! - [`registry`]: the dedup registry of the URLs met;
//! - [`worker`]: the fetch worker, from a fetched page to its outcome;
//! - [`retry`]: the retry policy of a fetch under resource pressure;
//! - [`scheduler`]: the batch scheduler, which sizes the waves;
//! - [`driver`]: the crawl driver, which owns the queue;
//! - [`model`] and [`proofs`]: the crawl as a mathematical model, and what
//!   holds of every crawl.
//!
//! A crawl runs in one of two modes, which differ in what the driver hands
//! out. In the mode with a wave barrier, `Crawl::next_wave` hands out no more
//! items than the scheduler allows, every worker of the wave is joined, and
//! `Crawl::complete_wave` merges the results and lets the scheduler size the
//! next wave. In the mode without, `Crawl::drain` hands out everything that
//! is queued, the scheduler is not asked, and the number of live workers
//! serves only to gate the retries of failed requests (see [`retry`]).

pub mod address;
pub mod driver;
pub mod extract;
pub mod markup;
pub mod model;
pub mod proofs;
pub mod registry;
pub mod retry;
pub mod scheduler;
pub mod selection;
pub mod worker;
