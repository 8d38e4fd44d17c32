//! The fetch worker: from one fetched page to one outcome.
//!
//! A worker is given one URL and its depth and reports exactly one outcome.
//! The request itself is the caller's; what it brought back comes in here as a
//! plain value. A failed request is an error outcome. A page at the maximum
//! depth is not explored: that bound is what ends the crawl of a link graph
//! without end. Any other page is parsed, and of its links those are offered
//! that the registry does not hold and that this worker has not offered
//! before.
//!
//! The work falls in two steps. `explore` parses the page and collects its
//! links, and needs no registry. `settle` holds the links against the
//! registry, and does nothing else: a caller who shares the registry between
//! workers takes its lock for `settle` alone. `conclude` is both in one call.
//!
//! What a parse comes to is the parser's to decide, and no contract here says
//! what it is for a given body. The contracts say what the outcome is for
//! whatever the parse came to.

use crate::address::Url;
use crate::extract::{forms, links_among, links_in, targets_of};
use crate::markup::{parse_document, parse_model, Markup, MarkupError, TreeNode};
use crate::registry::SeenSet;
use vstd::hash_set::StringHashSet;
use vstd::prelude::*;
use vstd::utf8::encode_utf8;

verus! {

/// The design default for the maximum depth of a crawl.
pub const MAX_DEPTH: u32 = 3;

/// The design default for the timeout of one request, in seconds.
pub const REQUEST_TIMEOUT_SECS: u64 = 3;

/// Why a fetch failed.
#[derive(Debug, PartialEq, Eq)]
pub enum FetchError {
    /// Connecting, the transport or the timeout.
    Network(String),
    /// The body was no valid text.
    Decode(String),
    /// The markup was beyond the parser's tolerance.
    Parse(String),
    /// The consumer of discovered links has gone.
    ChannelClosed,
}

/// What one fetch worker reports.
#[derive(Debug, PartialEq, Eq)]
pub enum FetchOutcome {
    /// The page was fetched and explored.
    Success { body_len: usize, links: Vec<Url> },
    /// The fetch failed.
    Error { cause: FetchError },
    /// The page lies at the maximum depth: fetched, not explored.
    Bailout,
}

/// The mathematical value of a `FetchError`.
pub enum Cause {
    Network(Seq<char>),
    Decode(Seq<char>),
    Parse(Seq<char>),
    ChannelClosed,
}

/// The mathematical value of a `FetchOutcome`.
pub enum Outcome {
    Success { body_len: nat, links: Seq<Seq<char>> },
    Error { cause: Cause },
    Bailout,
}

impl View for FetchError {
    type V = Cause;

    open spec fn view(&self) -> Cause {
        match self {
            FetchError::Network(reason) => Cause::Network(reason@),
            FetchError::Decode(reason) => Cause::Decode(reason@),
            FetchError::Parse(reason) => Cause::Parse(reason@),
            FetchError::ChannelClosed => Cause::ChannelClosed,
        }
    }
}

impl View for FetchOutcome {
    type V = Outcome;

    open spec fn view(&self) -> Outcome {
        match self {
            FetchOutcome::Success { body_len, links } => Outcome::Success {
                body_len: *body_len as nat,
                links: forms(links@),
            },
            FetchOutcome::Error { cause } => Outcome::Error { cause: cause@ },
            FetchOutcome::Bailout => Outcome::Bailout,
        }
    }
}

/// The length of a text in bytes, as UTF-8.
pub open spec fn byte_len(text: Seq<char>) -> nat {
    encode_utf8(text).len()
}

/// Of the links of a page, those that a worker offers, in order: a link is
/// left out if the registry holds it, if it is the page's own URL, or if the
/// worker has offered it already.
pub open spec fn offered(seen: Set<Seq<char>>, own: Seq<char>, links: Seq<Seq<char>>) -> Seq<
    Seq<char>,
>
    decreases links.len(),
{
    if links.len() == 0 {
        Seq::empty()
    } else {
        let earlier = offered(seen, own, links.drop_last());
        let link = links.last();
        if seen.contains(link) || link == own || earlier.contains(link) {
            earlier
        } else {
            earlier.push(link)
        }
    }
}

/// What a worker finds on a page whose body arrived, before anything is held
/// against the registry: a bailout at the maximum depth, whatever the body
/// holds; and else every link of the tree that the parse gave, or the
/// parser's message as the cause of an error.
pub open spec fn found_outcome(
    depth: nat,
    max_depth: nat,
    body_len: nat,
    parsed: Result<Seq<Markup>, Seq<char>>,
) -> Outcome {
    if depth == max_depth {
        Outcome::Bailout
    } else {
        match parsed {
            Ok(document) => Outcome::Success {
                body_len,
                links: links_among(targets_of(document)),
            },
            Err(reason) => Outcome::Error { cause: Cause::Parse(reason) },
        }
    }
}

/// What a worker reports of what it found: of the links of a success, those
/// that it offers; anything else as it is.
pub open spec fn settled(seen: Set<Seq<char>>, own: Seq<char>, found: Outcome) -> Outcome {
    match found {
        Outcome::Success { body_len, links } => Outcome::Success {
            body_len,
            links: offered(seen, own, links),
        },
        _ => found,
    }
}

/// The outcome for a page whose body arrived, with `body_len` bytes, and
/// whose parse came to `parsed`.
pub open spec fn page_outcome(
    seen: Set<Seq<char>>,
    own: Seq<char>,
    depth: nat,
    max_depth: nat,
    body_len: nat,
    parsed: Result<Seq<Markup>, Seq<char>>,
) -> Outcome {
    settled(seen, own, found_outcome(depth, max_depth, body_len, parsed))
}

/// The outcome of a fetch: the cause itself where the request failed, and
/// else the outcome for the page, of whose body `response` holds the length.
pub open spec fn fetch_outcome(
    seen: Set<Seq<char>>,
    own: Seq<char>,
    depth: nat,
    max_depth: nat,
    response: Result<nat, Cause>,
    parsed: Result<Seq<Markup>, Seq<char>>,
) -> Outcome {
    match response {
        Ok(body_len) => page_outcome(seen, own, depth, max_depth, body_len, parsed),
        Err(cause) => Outcome::Error { cause },
    }
}

/// What a request brought back, as a mathematical value: the length of the
/// body in bytes, or the cause of the failure.
pub open spec fn response_model(response: Result<String, FetchError>) -> Result<nat, Cause> {
    match response {
        Ok(body) => Ok(byte_len(body@)),
        Err(cause) => Err(cause@),
    }
}

/// Filters the links of the page at `site` for offering: against the
/// registry, against the page's own URL, and against what was offered
/// earlier in this call. The registry is only read.
pub fn offer_links(registry: &SeenSet, site: &Url, links: &Vec<Url>) -> (fresh: Vec<Url>)
    ensures
        forms(fresh@) == offered(registry@, site@, forms(links@)),
{
    let mut fresh: Vec<Url> = Vec::new();
    let mut offers: StringHashSet = StringHashSet::new();
    let mut i: usize = 0;
    assert(forms(links@).take(0) == Seq::<Seq<char>>::empty());
    assert(forms(fresh@) == Seq::<Seq<char>>::empty());
    assert(forms(fresh@).to_set() =~= Set::<Seq<char>>::empty());
    while i < links.len()
        invariant
            i <= links.len(),
            forms(fresh@) == offered(registry@, site@, forms(links@).take(i as int)),
            offers@ == forms(fresh@).to_set(),
        decreases links.len() - i,
    {
        let ghost all = forms(links@);
        let ghost before = fresh@;
        assert(all.take(i + 1).drop_last() == all.take(i as int));
        assert(all.take(i + 1).last() == links@[i as int]@);
        let link = &links[i];
        if !registry.already_seen(link) && !(*link == *site) {
            if offers.insert(link.clone().into_string()) {
                fresh.push(link.clone());
                assert(forms(fresh@) == forms(before).push(link@));
                proof {
                    forms(before).lemma_push_to_set_commute(link@);
                }
            } else {
                assert(offers@ =~= forms(before).to_set());
            }
        }
        i += 1;
    }
    assert(forms(links@).take(links.len() as int) == forms(links@));
    fresh
}

/// What a worker finds on a page of `body_len` bytes whose parse came to
/// `parsed`: a bailout at the maximum depth, where the parse is not looked
/// at; and else all links of the tree, or the parser's message as the cause
/// of an error. The registry plays no part yet.
pub fn explore_parsed(
    depth: u32,
    max_depth: u32,
    body_len: usize,
    parsed: Result<Vec<TreeNode>, MarkupError>,
) -> (found: FetchOutcome)
    ensures
        found@ == found_outcome(
            depth as nat,
            max_depth as nat,
            body_len as nat,
            parse_model(parsed),
        ),
{
    if depth == max_depth {
        return FetchOutcome::Bailout;
    }
    match parsed {
        Ok(nodes) => FetchOutcome::Success { body_len, links: links_in(&nodes) },
        Err(error) => FetchOutcome::Error { cause: FetchError::Parse(error.reason) },
    }
}

/// What a worker finds, from what its request brought back. A failed request
/// is an error with its cause. A page at the maximum depth is a bailout, and
/// its body is not parsed. Any other body is parsed, and whatever the parse
/// comes to, what is found is what `explore_parsed` finds of it. The
/// registry plays no part: a caller who shares it needs no lock here.
pub fn explore(depth: u32, max_depth: u32, response: Result<String, FetchError>) -> (found:
    FetchOutcome)
    ensures
        response matches Err(cause) ==> found@ == (Outcome::Error { cause: cause@ }),
        response is Ok && depth == max_depth ==> found@ == Outcome::Bailout,
        response matches Ok(body) ==> exists|parsed: Result<Seq<Markup>, Seq<char>>|
            found@ == #[trigger] found_outcome(
                depth as nat,
                max_depth as nat,
                byte_len(body@),
                parsed,
            ),
{
    match response {
        Ok(body) => {
            let body_len = body.as_str().as_bytes().len();
            if depth == max_depth {
                let ghost unread = Err::<Seq<Markup>, Seq<char>>(Seq::empty());
                assert(Outcome::Bailout == found_outcome(
                    depth as nat,
                    max_depth as nat,
                    byte_len(body@),
                    unread,
                ));
                FetchOutcome::Bailout
            } else {
                let parsed = parse_document(body.as_str());
                let ghost model = parse_model(parsed);
                let found = explore_parsed(depth, max_depth, body_len, parsed);
                assert(found@ == found_outcome(
                    depth as nat,
                    max_depth as nat,
                    byte_len(body@),
                    model,
                ));
                found
            }
        },
        Err(cause) => FetchOutcome::Error { cause },
    }
}

/// What a worker reports of what it found: the links of a success are
/// filtered for offering, against the registry, the page's own URL and one
/// another; an error or a bailout is reported as it is. This is the one step
/// of a worker that reads the registry.
pub fn settle(registry: &SeenSet, site: &Url, found: FetchOutcome) -> (outcome: FetchOutcome)
    ensures
        outcome@ == settled(registry@, site@, found@),
{
    match found {
        FetchOutcome::Success { body_len, links } => {
            let fresh = offer_links(registry, site, &links);
            FetchOutcome::Success { body_len, links: fresh }
        },
        FetchOutcome::Error { cause } => FetchOutcome::Error { cause },
        FetchOutcome::Bailout => FetchOutcome::Bailout,
    }
}

/// The outcome for the page at `site`, met at `depth`, of `body_len` bytes,
/// whose parse came to `parsed`.
pub fn examine_parsed(
    registry: &SeenSet,
    site: &Url,
    depth: u32,
    max_depth: u32,
    body_len: usize,
    parsed: Result<Vec<TreeNode>, MarkupError>,
) -> (outcome: FetchOutcome)
    ensures
        outcome@ == page_outcome(
            registry@,
            site@,
            depth as nat,
            max_depth as nat,
            body_len as nat,
            parse_model(parsed),
        ),
{
    let found = explore_parsed(depth, max_depth, body_len, parsed);
    settle(registry, site, found)
}

/// The outcome for the page at `site`, met at `depth`, whose body arrived.
/// At the maximum depth the outcome is a bailout and the body is not looked
/// at. Any other body is parsed, and whatever the parse comes to, the
/// outcome is the one that `examine_parsed` gives for it.
pub fn examine_page(
    registry: &SeenSet,
    site: &Url,
    depth: u32,
    max_depth: u32,
    body: &str,
) -> (outcome: FetchOutcome)
    ensures
        depth == max_depth ==> outcome@ == Outcome::Bailout,
        exists|parsed: Result<Seq<Markup>, Seq<char>>|
            outcome@ == #[trigger] page_outcome(
                registry@,
                site@,
                depth as nat,
                max_depth as nat,
                byte_len(body@),
                parsed,
            ),
{
    let body_len = body.as_bytes().len();
    if depth == max_depth {
        let ghost unread = Err::<Seq<Markup>, Seq<char>>(Seq::empty());
        assert(Outcome::Bailout == page_outcome(
            registry@,
            site@,
            depth as nat,
            max_depth as nat,
            byte_len(body@),
            unread,
        ));
        FetchOutcome::Bailout
    } else {
        let parsed = parse_document(body);
        let ghost model = parse_model(parsed);
        let outcome = examine_parsed(registry, site, depth, max_depth, body_len, parsed);
        assert(outcome@ == page_outcome(
            registry@,
            site@,
            depth as nat,
            max_depth as nat,
            byte_len(body@),
            model,
        ));
        outcome
    }
}

/// The one outcome of a fetch worker, from what its request brought back:
/// the body of the page, or the cause of the failure. A failed request is an
/// error with that cause; a body at the maximum depth is a bailout; and for
/// any other body the outcome is the one of `fetch_outcome` for whatever its
/// parse came to.
pub fn conclude(
    registry: &SeenSet,
    site: &Url,
    depth: u32,
    max_depth: u32,
    response: Result<String, FetchError>,
) -> (outcome: FetchOutcome)
    ensures
        response matches Err(cause) ==> outcome@ == (Outcome::Error { cause: cause@ }),
        response is Ok && depth == max_depth ==> outcome@ == Outcome::Bailout,
        exists|parsed: Result<Seq<Markup>, Seq<char>>|
            outcome@ == #[trigger] fetch_outcome(
                registry@,
                site@,
                depth as nat,
                max_depth as nat,
                response_model(response),
                parsed,
            ),
{
    match response {
        Ok(body) => {
            let outcome = examine_page(registry, site, depth, max_depth, body.as_str());
            let ghost parsed = choose|parsed: Result<Seq<Markup>, Seq<char>>|
                outcome@ == #[trigger] page_outcome(
                    registry@,
                    site@,
                    depth as nat,
                    max_depth as nat,
                    byte_len(body@),
                    parsed,
                );
            assert(outcome@ == fetch_outcome(
                registry@,
                site@,
                depth as nat,
                max_depth as nat,
                response_model(response),
                parsed,
            ));
            outcome
        },
        Err(cause) => {
            let ghost unread = Err::<Seq<Markup>, Seq<char>>(Seq::empty());
            assert(Outcome::Error { cause: cause@ } == fetch_outcome(
                registry@,
                site@,
                depth as nat,
                max_depth as nat,
                response_model(response),
                unread,
            ));
            FetchOutcome::Error { cause }
        },
    }
}

} // verus!
