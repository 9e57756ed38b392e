//! References to known blocks.

use crate::block::{BlockDate, ChainLength, Header, HeaderHash};
use std::sync::Arc;
use vstd::prelude::*;

verus! {

/// A block that is known, with the ledger state that it leads to and the leadership
/// schedule that it was checked against.
#[derive(Debug)]
pub struct Ref<L, S> {
    /// The header of the block.
    pub header: Header,
    /// The ledger after the block.
    pub ledger: Arc<L>,
    /// The leadership schedule of the block.
    pub leadership: Arc<S>,
}

impl<L, S> Ref<L, S> {
    /// A reference to the block with the given header and states.
    pub fn new(ledger: Arc<L>, leadership: Arc<S>, header: Header) -> (res: Self)
        ensures
            res == (Ref { header, ledger, leadership }),
    {
        Ref { header, ledger, leadership }
    }

    /// The identifier of the block.
    pub fn hash(&self) -> (res: HeaderHash)
        ensures
            res == self.header.hash,
    {
        self.header.hash
    }

    /// The date of the block.
    pub fn block_date(&self) -> (res: BlockDate)
        ensures
            res == self.header.block_date,
    {
        self.header.block_date
    }

    /// The position of the block in its chain.
    pub fn chain_length(&self) -> (res: ChainLength)
        ensures
            res == self.header.chain_length,
    {
        self.header.chain_length
    }
}

impl<L, S> Clone for Ref<L, S> {
    fn clone(&self) -> (res: Self)
        ensures
            res == *self,
    {
        Ref { header: self.header, ledger: self.ledger.clone(), leadership: self.leadership.clone() }
    }
}

} // verus!
