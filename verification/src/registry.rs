//! The dedup registry: the set of URLs that the crawl has met.
//!
//! A URL that entered the registry stays in it. The check whether a URL is
//! new and its entry are one step, `claim`, so that a caller who shares the
//! registry between workers holds its lock once, for that step alone, and
//! never across a network operation. The URLs are kept in a hash set by their
//! canonical form, so that neither the check nor the entry grows with the
//! number of URLs met.

use crate::address::Url;
use crate::extract::forms;
use vstd::hash_set::StringHashSet;
use vstd::prelude::*;

verus! {

/// A set of URLs.
pub struct SeenSet {
    urls: StringHashSet,
}

impl View for SeenSet {
    type V = Set<Seq<char>>;

    closed spec fn view(&self) -> Set<Seq<char>> {
        self.urls@
    }
}

impl SeenSet {
    #[verifier::type_invariant]
    spec fn finite(self) -> bool {
        self.urls@.finite()
    }

    /// The empty registry.
    pub fn new() -> (seen: SeenSet)
        ensures
            seen@ == Set::<Seq<char>>::empty(),
    {
        SeenSet { urls: StringHashSet::new() }
    }

    /// Whether the URL has entered the registry.
    pub fn already_seen(&self, url: &Url) -> (seen: bool)
        ensures
            seen == self@.contains(url@),
    {
        self.urls.contains(url.as_str())
    }

    /// The number of URLs in the registry.
    pub fn len(&self) -> (count: usize)
        ensures
            count == self@.len(),
            self@.finite(),
    {
        proof {
            use_type_invariant(self);
        }
        self.urls.len()
    }

    /// Enters the URL if it is new, and says whether it was: the check and the
    /// entry in one step.
    pub fn claim(&mut self, url: Url) -> (fresh: bool)
        ensures
            fresh == !old(self)@.contains(url@),
            final(self)@ == old(self)@.insert(url@),
    {
        proof {
            use_type_invariant(&*self);
        }
        let mut taken = SeenSet::new();
        core::mem::swap(self, &mut taken);
        let mut urls = taken.urls;
        let fresh = urls.insert(url.into_string());
        *self = SeenSet { urls };
        fresh
    }

    /// Enters every one of the URLs.
    pub fn mark_seen(&mut self, urls: &Vec<Url>)
        ensures
            final(self)@ == old(self)@.union(forms(urls@).to_set()),
    {
        let mut i: usize = 0;
        assert(forms(urls@).take(0).to_set() =~= Set::<Seq<char>>::empty());
        assert(self@.union(Set::<Seq<char>>::empty()) =~= self@);
        while i < urls.len()
            invariant
                i <= urls.len(),
                self@ == old(self)@.union(forms(urls@).take(i as int).to_set()),
            decreases urls.len() - i,
        {
            let ghost all = forms(urls@);
            assert(all.take(i + 1) == all.take(i as int).push(urls@[i as int]@));
            proof {
                all.take(i as int).lemma_push_to_set_commute(urls@[i as int]@);
            }
            self.claim(urls[i].clone());
            assert(self@ =~= old(self)@.union(all.take(i + 1).to_set()));
            i += 1;
        }
        assert(forms(urls@).take(urls.len() as int) == forms(urls@));
    }
}

} // verus!
