//! What bringing up a chain needs from outside.

use super::chain::Verification;
use crate::block::{Block, Header, HeaderHash};
use std::sync::Arc;
use vstd::prelude::*;

verus! {

/// The storage's tag for the last block that consensus was reached on.
pub const MAIN_BRANCH_TAG: &'static str = "HEAD";

/// What has to be done outside before loading can go on.
#[derive(Debug)]
pub enum Request<C, L, S> {
    /// Ask the storage whether it has the block.
    BlockExists(HeaderHash),
    /// Ask the storage which block has the tag.
    GetTag(&'static str),
    /// Store the block.
    PutBlock(Block<C>),
    /// Give the tag to the block.
    PutTag(&'static str, HeaderHash),
    /// Ask the storage for the blocks that follow `from`, up to `to`.
    StreamFromTo {
        /// The block before the first one.
        from: HeaderHash,
        /// The last block.
        to: HeaderHash,
    },
    /// Take the next of those blocks.
    NextBlock,
    /// Make the ledger that the contents of the first block describe.
    NewLedger {
        /// The first block.
        block_id: HeaderHash,
        /// Its contents.
        body: Arc<C>,
    },
    /// Make the leadership schedule of an epoch.
    NewLeadership {
        /// The epoch.
        epoch: u32,
        /// The ledger to make it from.
        ledger: Arc<L>,
    },
    /// Let a leadership schedule judge a header.
    VerifyHeader {
        /// The header.
        header: Header,
        /// The contents of the block that the header is of.
        body: Arc<C>,
        /// The schedule.
        leadership: Arc<S>,
    },
    /// Move a ledger on by a block, under the parameters that the schedule has.
    ApplyLedger {
        /// The ledger.
        ledger: Arc<L>,
        /// The schedule.
        leadership: Arc<S>,
        /// The header of the block.
        header: Header,
        /// The contents of the block.
        body: Arc<C>,
    },
}

/// What came of a [`Request`]. A failure is told in words.
#[derive(Debug)]
pub enum Reply<C, L, S> {
    /// Whether the storage has the block.
    Exists(Result<bool, String>),
    /// The block that has the tag, if there is one.
    Tag(Result<Option<HeaderHash>, String>),
    /// The block or the tag was stored.
    Stored(Result<(), String>),
    /// Whether there is a way from the one block to the other.
    Stream(Result<bool, String>),
    /// The next block, or none after the last.
    Block(Result<Option<Block<C>>, String>),
    /// The ledger.
    Ledger(Result<L, String>),
    /// The leadership schedule.
    Leadership(S),
    /// The judgement of the header.
    Verified(Verification),
}

impl<C, L, S> Reply<C, L, S> {
    /// Something outside has failed or was rejected.
    pub open spec fn failed(self) -> bool {
        match self {
            Reply::Exists(res) => res is Err,
            Reply::Tag(res) => res is Err,
            Reply::Stored(res) => res is Err,
            Reply::Stream(res) => res is Err,
            Reply::Block(res) => res is Err,
            Reply::Ledger(res) => res is Err,
            Reply::Leadership(_) => false,
            Reply::Verified(verification) => verification is Failure,
        }
    }
}

} // verus!
