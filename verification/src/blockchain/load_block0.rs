//! Bringing up a chain from its first block.

use super::branch::Branch;
use super::chain::{ApplyBlock0, AwaitBlock0Leadership, Blockchain, ChainView, Step};
use super::error::{Error, ErrorKind};
use super::reference::Ref;
use super::request::{Reply, Request, MAIN_BRANCH_TAG};
use crate::block::{Block, HeaderHash};
use std::sync::Arc;
use vstd::prelude::*;

verus! {

/// Where the loading of a first block stands. Each variant waits for one answer.
#[derive(Debug)]
#[allow(inconsistent_fields)]
pub enum LoadFromBlock0<C, L> {
    /// Whether the storage has the block.
    Exists {
        /// The first block.
        block0: Block<C>,
    },
    /// The ledger of the block.
    Ledger {
        /// The first block.
        block0: Block<C>,
        /// The application of the block.
        task: ApplyBlock0<C>,
    },
    /// The leadership schedule of the block.
    Leadership {
        /// The first block.
        block0: Block<C>,
        /// The application of the block.
        task: AwaitBlock0Leadership<L>,
    },
    /// The block is being stored.
    PutBlock {
        /// The first block.
        block0: Block<C>,
        /// The fork that it begins.
        branch: Branch,
    },
    /// The block is being tagged.
    PutTag {
        /// The first block.
        block0_id: HeaderHash,
        /// The fork that it begins.
        branch: Branch,
    },
}

impl<C, L> LoadFromBlock0<C, L> {
    /// What has to be done next.
    pub open spec fn wanted<S>(self) -> Request<C, L, S> {
        match self {
            LoadFromBlock0::Exists { block0 } => Request::BlockExists(block0.header.hash),
            LoadFromBlock0::Ledger { block0: _, task } => Request::NewLedger {
                block_id: task.header.hash,
                body: task.body,
            },
            LoadFromBlock0::Leadership { block0: _, task } => Request::NewLeadership {
                epoch: task.header.block_date.epoch,
                ledger: task.ledger,
            },
            LoadFromBlock0::PutBlock { block0, branch: _ } => Request::PutBlock(block0),
            LoadFromBlock0::PutTag { block0_id, branch: _ } => Request::PutTag(
                MAIN_BRANCH_TAG,
                block0_id,
            ),
        }
    }

    /// The block that a reply may make the chain record.
    pub open spec fn recorded(self) -> Set<HeaderHash> {
        match self {
            LoadFromBlock0::Leadership { block0: _, task } => set![task.header.hash],
            _ => Set::empty(),
        }
    }

    /// The fork that the block begins is one of the chain's.
    pub open spec fn valid<S>(self, chain: ChainView<L, S>) -> bool {
        match self {
            LoadFromBlock0::PutBlock { block0: _, branch } => chain.follows(branch),
            LoadFromBlock0::PutTag { block0_id: _, branch } => chain.follows(branch),
            _ => true,
        }
    }

    /// The reply is one to what was wanted.
    pub open spec fn accepts_spec<S>(self, reply: Reply<C, L, S>) -> bool {
        match self {
            LoadFromBlock0::Exists { .. } => reply is Exists,
            LoadFromBlock0::Ledger { .. } => reply is Ledger,
            LoadFromBlock0::Leadership { .. } => reply is Leadership,
            LoadFromBlock0::PutBlock { .. } => reply is Stored,
            LoadFromBlock0::PutTag { .. } => reply is Stored,
        }
    }

    /// What a reply does to the loading of a first block. The block must not be stored
    /// yet. It is applied, then stored, then tagged as the last of the main branch.
    pub open spec fn step<S>(self, chain: ChainView<L, S>, reply: Reply<C, L, S>) -> (
        ChainView<L, S>,
        Step<LoadFromBlock0<C, L>, Branch>,
    ) {
        match (self, reply) {
            (LoadFromBlock0::Exists { block0 }, Reply::Exists(Ok(exists))) => (
                chain,
                if exists {
                    Step::Done(Err(Error::refusal(ErrorKind::Block0AlreadyInStorage)))
                } else {
                    let task = ApplyBlock0 { header: block0.header, body: block0.body };
                    Step::Pending(LoadFromBlock0::Ledger { block0, task })
                },
            ),
            (LoadFromBlock0::Exists { block0: _ }, Reply::Exists(Err(cause))) => (
                chain,
                Step::Done(Err(Error::failure(ErrorKind::Msg("Cannot check if block0 is in storage"), cause))),
            ),
            (LoadFromBlock0::Ledger { block0, task }, Reply::Ledger(Ok(ledger))) => (
                chain,
                Step::Pending(
                    LoadFromBlock0::Leadership {
                        block0,
                        task: AwaitBlock0Leadership { header: task.header, ledger: Arc::new(ledger) },
                    },
                ),
            ),
            (LoadFromBlock0::Ledger { .. }, Reply::Ledger(Err(cause))) => (
                chain,
                Step::Done(
                    Err(Error::failure(ErrorKind::Block0InitialLedgerError, cause)),
                ),
            ),
            (LoadFromBlock0::Leadership { block0, task }, Reply::Leadership(leadership)) => (
                chain.founded(
                    Ref { header: task.header, ledger: task.ledger, leadership: Arc::new(leadership) },
                ),
                Step::Pending(
                    LoadFromBlock0::PutBlock {
                        block0,
                        branch: Branch { index: chain.branches.len() as usize },
                    },
                ),
            ),
            (LoadFromBlock0::PutBlock { block0, branch }, Reply::Stored(Ok(_))) => (
                chain,
                Step::Pending(LoadFromBlock0::PutTag { block0_id: block0.header.hash, branch }),
            ),
            (LoadFromBlock0::PutBlock { .. }, Reply::Stored(Err(cause))) => (
                chain,
                Step::Done(Err(Error::failure(ErrorKind::Msg("Cannot put block0 in storage"), cause))),
            ),
            (LoadFromBlock0::PutTag { block0_id: _, branch }, Reply::Stored(Ok(_))) => (
                chain,
                Step::Done(Ok(branch)),
            ),
            (LoadFromBlock0::PutTag { .. }, Reply::Stored(Err(cause))) => (
                chain,
                Step::Done(Err(Error::failure(ErrorKind::Msg("Cannot put block0's hash in the HEAD tag"), cause))),
            ),
            _ => (chain, Step::Pending(self)),
        }
    }

    /// What has to be done next.
    pub fn request<S>(&self) -> (res: Request<C, L, S>)
        ensures
            res == self.wanted::<S>(),
    {
        match self {
            LoadFromBlock0::Exists { block0 } => Request::BlockExists(block0.header.hash),
            LoadFromBlock0::Ledger { block0: _, task } => Request::NewLedger {
                block_id: task.header.hash,
                body: task.body.clone(),
            },
            LoadFromBlock0::Leadership { block0: _, task } => Request::NewLeadership {
                epoch: task.header.block_date.epoch,
                ledger: task.ledger.clone(),
            },
            LoadFromBlock0::PutBlock { block0, branch: _ } => Request::PutBlock(block0.clone()),
            LoadFromBlock0::PutTag { block0_id, branch: _ } => Request::PutTag(
                MAIN_BRANCH_TAG,
                *block0_id,
            ),
        }
    }

    /// The block that a reply may make the chain record.
    pub fn records(&self) -> (res: Option<HeaderHash>)
        ensures
            self.recorded() == (match res {
                Some(header_hash) => set![header_hash],
                None => Set::empty(),
            }),
            res == (match *self {
                LoadFromBlock0::Leadership { block0: _, task } => Some(task.header.hash),
                _ => None,
            }),
    {
        match self {
            LoadFromBlock0::Leadership { block0: _, task } => Some(task.header.hash),
            _ => None,
        }
    }

    /// Whether the reply is one to what was wanted.
    pub fn accepts<S>(&self, reply: &Reply<C, L, S>) -> (res: bool)
        ensures
            res == self.accepts_spec(*reply),
    {
        match (self, reply) {
            (LoadFromBlock0::Exists { .. }, Reply::Exists(_)) => true,
            (LoadFromBlock0::Ledger { .. }, Reply::Ledger(_)) => true,
            (LoadFromBlock0::Leadership { .. }, Reply::Leadership(_)) => true,
            (LoadFromBlock0::PutBlock { .. }, Reply::Stored(_)) => true,
            (LoadFromBlock0::PutTag { .. }, Reply::Stored(_)) => true,
            _ => false,
        }
    }
}

impl<L, S> Blockchain<L, S> {
    /// Begins to load a first block that is not in the storage yet.
    pub fn load_from_block0<C>(&self, block0: Block<C>) -> (res: LoadFromBlock0<C, L>)
        ensures
            res == (LoadFromBlock0::<C, L>::Exists { block0 }),
    {
        LoadFromBlock0::Exists { block0 }
    }

    /// Goes on with the loading of a first block. At the end there is the fork that
    /// the block begins.
    pub fn resume_load_from_block0<C>(
        &mut self,
        task: LoadFromBlock0<C, L>,
        reply: Reply<C, L, S>,
    ) -> (res: Step<LoadFromBlock0<C, L>, Branch>)
        requires
            old(self).wf(),
            task.accepts_spec(reply),
        ensures
            final(self).wf(),
            (final(self)@, res) == task.step(old(self)@, reply),
            res matches Step::Pending(LoadFromBlock0::PutBlock { block0: _, branch }) ==> {
                &&& final(self)@.follows(branch)
                &&& branch.index == old(self)@.branches.len()
            },
            task.valid(old(self)@) ==> match res {
                Step::Pending(next) => next.valid(final(self)@),
                Step::Done(Ok(branch)) => final(self)@.follows(branch),
                Step::Done(Err(_)) => true,
            },
            final(self).lifetime() == old(self).lifetime(),
    {
        match (task, reply) {
            (LoadFromBlock0::Exists { block0 }, Reply::Exists(exists)) => match exists {
                Ok(true) => Step::Done(Err(Error::new(ErrorKind::Block0AlreadyInStorage))),
                Ok(false) => {
                    let task = self.apply_block0(block0.clone());
                    Step::Pending(LoadFromBlock0::Ledger { block0, task })
                },
                Err(cause) => Step::Done(
                    Err(
                        Error::with_chain(
                            cause,
                            ErrorKind::Msg("Cannot check if block0 is in storage"),
                        ),
                    ),
                ),
            },
            (LoadFromBlock0::Ledger { block0, task }, Reply::Ledger(ledger)) => {
                match task.resume(ledger) {
                    Ok(task) => Step::Pending(LoadFromBlock0::Leadership { block0, task }),
                    Err(error) => Step::Done(Err(error)),
                }
            },
            (LoadFromBlock0::Leadership { block0, task }, Reply::Leadership(leadership)) => {
                let branch = self.resume_apply_block0(task, leadership);
                Step::Pending(LoadFromBlock0::PutBlock { block0, branch })
            },
            (LoadFromBlock0::PutBlock { block0, branch }, Reply::Stored(stored)) => match stored {
                Ok(_) => Step::Pending(
                    LoadFromBlock0::PutTag { block0_id: block0.header.hash, branch },
                ),
                Err(cause) => Step::Done(
                    Err(
                        Error::with_chain(cause, ErrorKind::Msg("Cannot put block0 in storage")),
                    ),
                ),
            },
            (LoadFromBlock0::PutTag { block0_id: _, branch }, Reply::Stored(stored)) => {
                match stored {
                    Ok(_) => Step::Done(Ok(branch)),
                    Err(cause) => Step::Done(
                        Err(
                            Error::with_chain(
                                cause,
                                ErrorKind::Msg("Cannot put block0's hash in the HEAD tag"),
                            ),
                        ),
                    ),
                }
            },
            (task, _) => Step::Pending(task),
        }
    }
}

} // verus!
