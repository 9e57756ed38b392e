//! The states of all forks.

use super::index::HashIndex;
use crate::block::{ChainLength, HeaderHash};
use std::sync::Arc;
use vstd::prelude::*;

verus! {

/// A state that a block leads to, and the position of that block in its chain.
pub struct State<T> {
    /// The position of the block.
    pub chain_length: ChainLength,
    /// The state.
    pub value: Arc<T>,
}

/// The states that the known blocks lead to, on whatever fork they are.
pub struct Multiverse<T> {
    states: HashIndex<State<T>>,
}

impl<T> Multiverse<T> {
    /// The index of the states is in order.
    pub closed spec fn wf(&self) -> bool {
        self.states.wf()
    }

    /// The state of each block that has one.
    pub closed spec fn view(&self) -> Map<HeaderHash, State<T>> {
        self.states@
    }

    /// A multiverse without any state.
    pub fn new() -> (res: Self)
        ensures
            res.wf(),
            res@ == Map::<HeaderHash, State<T>>::empty(),
    {
        Multiverse { states: HashIndex::new() }
    }

    /// Records the state that a block leads to, and shares it with the caller.
    pub fn insert(
        &mut self,
        chain_length: ChainLength,
        header_hash: HeaderHash,
        value: Arc<T>,
    ) -> (res: Arc<T>)
        requires
            old(self).wf(),
        ensures
            final(self).wf(),
            final(self)@ == old(self)@.insert(header_hash, State { chain_length, value }),
            res == value,
    {
        let root = value.clone();
        self.states.insert(header_hash, State { chain_length, value });
        root
    }

    /// The state that a block leads to, if it is recorded.
    pub fn get(&self, header_hash: &HeaderHash) -> (res: Option<Arc<T>>)
        requires
            self.wf(),
        ensures
            res == (if self@.dom().contains(*header_hash) {
                Some(self@[*header_hash].value)
            } else {
                None
            }),
    {
        match self.states.get(header_hash) {
            Some(state) => Some(state.value.clone()),
            None => None,
        }
    }
}

} // verus!
