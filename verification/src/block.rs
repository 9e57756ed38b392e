//! Headers and blocks, as far as the chain's rules read them.

use std::sync::Arc;
use vstd::prelude::*;

verus! {

/// The 256-bit identifier of a block: the hash of its header.
#[derive(Clone, Copy, Debug, PartialEq, Eq, Structural)]
pub struct HeaderHash {
    /// The first 128 bits.
    pub high: u128,
    /// The last 128 bits.
    pub low: u128,
}

impl HeaderHash {
    /// The order of identifiers read as 256-bit numbers.
    pub open spec fn precedes(self, other: HeaderHash) -> bool {
        self.high < other.high || (self.high == other.high && self.low < other.low)
    }

    /// Whether this identifier, read as a number, is less than `other`.
    pub fn is_before(&self, other: &HeaderHash) -> (res: bool)
        ensures
            res == self.precedes(*other),
            self.high < other.high ==> res,
            self.high > other.high ==> !res,
            self.high == other.high ==> res == (self.low < other.low),
    {
        self.high < other.high || (self.high == other.high && self.low < other.low)
    }
}

/// The number of blocks between a block and the first block of its chain.
#[derive(Clone, Copy, Debug, PartialEq, Eq, Structural)]
pub struct ChainLength(pub u32);

impl ChainLength {
    /// Whether a block of this chain length stands directly on top of one of
    /// chain length `parent`. Nothing stands on top of the greatest chain length.
    pub fn follows(&self, parent: &ChainLength) -> (res: bool)
        ensures
            res == (self.0 == parent.0 + 1),
    {
        parent.0 < self.0 && self.0 - parent.0 == 1
    }
}

/// A point in the chain's time: an epoch and a slot of that epoch.
#[derive(Clone, Copy, Debug, PartialEq, Eq, Structural)]
pub struct BlockDate {
    /// The epoch.
    pub epoch: u32,
    /// The slot within the epoch.
    pub slot_id: u32,
}

impl BlockDate {
    /// Dates are ordered by epoch first, then by slot.
    pub open spec fn later_than(self, other: BlockDate) -> bool {
        self.epoch > other.epoch || (self.epoch == other.epoch && self.slot_id > other.slot_id)
    }

    /// Whether this date is strictly later than `other`.
    pub fn is_after(&self, other: &BlockDate) -> (res: bool)
        ensures
            res == self.later_than(*other),
            self.epoch > other.epoch ==> res,
            self.epoch < other.epoch ==> !res,
            self.epoch == other.epoch ==> res == (self.slot_id > other.slot_id),
    {
        self.epoch > other.epoch || (self.epoch == other.epoch && self.slot_id > other.slot_id)
    }
}

/// What the chain's rules read of a block header.
#[derive(Clone, Copy, Debug, PartialEq, Eq, Structural)]
pub struct Header {
    /// The identifier of the block.
    pub hash: HeaderHash,
    /// The identifier of the block that it is built on.
    pub parent_hash: HeaderHash,
    /// The date at which it was made.
    pub block_date: BlockDate,
    /// Its position in its chain.
    pub chain_length: ChainLength,
}

impl Header {
    /// The rule of succession: a block is later than its parent, and its chain is
    /// longer by one.
    pub open spec fn extends(self, parent: Header) -> bool {
        &&& self.block_date.later_than(parent.block_date)
        &&& self.chain_length.0 == parent.chain_length.0 + 1
    }
}

/// A block: its header, and a body that is carried and never looked at.
#[derive(Debug)]
pub struct Block<C> {
    /// The header of the block.
    pub header: Header,
    /// The rest of the block.
    pub body: Arc<C>,
}

impl<C> Clone for Block<C> {
    fn clone(&self) -> (res: Self)
        ensures
            res == *self,
    {
        Block { header: self.header, body: self.body.clone() }
    }
}

/// A date of a later epoch is later whatever the slots are, and one of an earlier epoch is
/// not. Within an epoch the later slot is later. Of two different dates exactly one is
/// later, and no date is later than itself.
pub proof fn law_dates_go_by_epoch_first(a: BlockDate, b: BlockDate)
    ensures
        a.epoch > b.epoch ==> a.later_than(b),
        a.epoch < b.epoch ==> !a.later_than(b),
        a.epoch == b.epoch ==> (a.later_than(b) <==> a.slot_id > b.slot_id),
        a != b ==> (a.later_than(b) <==> !b.later_than(a)),
        !a.later_than(a),
{
}

/// What is later than a later date is later.
pub proof fn law_later_dates_line_up(a: BlockDate, b: BlockDate, c: BlockDate)
    requires
        a.later_than(b),
        b.later_than(c),
    ensures
        a.later_than(c),
{
}

/// A header may follow another exactly if its epoch is later, or the same with a later
/// slot, and its chain is longer by one. Nothing else of the two headers matters.
pub proof fn law_succession_reads_date_and_length(child: Header, parent: Header)
    ensures
        child.extends(parent) <==> {
            &&& child.chain_length.0 == parent.chain_length.0 + 1
            &&& child.block_date.epoch >= parent.block_date.epoch
            &&& child.block_date.epoch == parent.block_date.epoch ==> child.block_date.slot_id
                > parent.block_date.slot_id
        },
        !child.extends(child),
        child.extends(parent) ==> !parent.extends(child),
{
}

/// Identifiers are ordered as the 256-bit numbers that they are.
pub proof fn law_identifiers_are_ordered_as_numbers(a: HeaderHash, b: HeaderHash)
    ensures
        a.precedes(b) <==> a.high * 0x1_0000_0000_0000_0000_0000_0000_0000_0000int + a.low < b.high
            * 0x1_0000_0000_0000_0000_0000_0000_0000_0000int + b.low,
{
}

} // verus!
