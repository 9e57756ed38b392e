//! The references that are kept at hand.

use super::index::HashIndex;
use super::reference::Ref;
use crate::block::HeaderHash;
use std::time::Duration;
use vstd::prelude::*;

verus! {

/// The references to blocks that were used of late.
///
/// A reference stays until it is removed. The cache says how long one should stay;
/// whoever keeps the time removes it.
pub struct RefCache<L, S> {
    ttl: Duration,
    refs: HashIndex<Ref<L, S>>,
}

impl<L, S> RefCache<L, S> {
    /// The index of the references is in order.
    pub closed spec fn wf(&self) -> bool {
        self.refs.wf()
    }

    /// The cached reference of each block that has one.
    pub closed spec fn view(&self) -> Map<HeaderHash, Ref<L, S>> {
        self.refs@
    }

    /// How long a reference should stay.
    pub closed spec fn lifetime(&self) -> Duration {
        self.ttl
    }

    /// An empty cache.
    pub fn new(ttl: Duration) -> (res: Self)
        ensures
            res.wf(),
            res@ == Map::<HeaderHash, Ref<L, S>>::empty(),
            res.lifetime() == ttl,
    {
        RefCache { ttl, refs: HashIndex::new() }
    }

    /// How long a reference should stay.
    pub fn ttl(&self) -> (res: &Duration)
        ensures
            *res == self.lifetime(),
    {
        &self.ttl
    }

    /// Puts a reference into the cache.
    pub fn insert(&mut self, header_hash: HeaderHash, reference: Ref<L, S>)
        requires
            old(self).wf(),
        ensures
            final(self).wf(),
            final(self)@ == old(self)@.insert(header_hash, reference),
            final(self).lifetime() == old(self).lifetime(),
    {
        self.refs.insert(header_hash, reference);
    }

    /// The cached reference to a block.
    pub fn get(&self, header_hash: &HeaderHash) -> (res: Option<Ref<L, S>>)
        requires
            self.wf(),
        ensures
            res == (if self@.dom().contains(*header_hash) {
                Some(self@[*header_hash])
            } else {
                None
            }),
    {
        match self.refs.get(header_hash) {
            Some(reference) => Some(reference.clone()),
            None => None,
        }
    }

    /// Takes a reference out of the cache.
    pub fn remove(&mut self, header_hash: &HeaderHash)
        requires
            old(self).wf(),
        ensures
            final(self).wf(),
            final(self)@ == old(self)@.remove(*header_hash),
            final(self).lifetime() == old(self).lifetime(),
    {
        self.refs.remove(header_hash);
    }
}

} // verus!
