//! Bringing up a chain from what the storage has.

use super::branch::Branch;
use super::chain::{
    ApplyBlock, ApplyBlock0, AwaitBlock0Leadership, AwaitLeadership, AwaitVerification, Blockchain,
    Candidate, ChainView, PostCheck, PreCheck, PreCheckedHeader, Step, Verification,
};
use super::error::{Error, ErrorKind};
use super::reference::Ref;
use super::request::{Reply, Request, MAIN_BRANCH_TAG};
use crate::block::{Block, HeaderHash};
use std::sync::Arc;
use vstd::prelude::*;

verus! {

/// Where the loading of a chain from the storage stands. Each variant waits for one
/// answer.
#[derive(Debug)]
#[allow(inconsistent_fields)]
pub enum LoadFromStorage<C, L, S> {
    /// Whether the storage has the first block.
    Exists {
        /// The first block.
        block0: Block<C>,
    },
    /// The last block of the main branch.
    Tag {
        /// The first block.
        block0: Block<C>,
    },
    /// The ledger of the first block.
    Ledger {
        /// The last block of the main branch.
        head: HeaderHash,
        /// The application of the first block.
        task: ApplyBlock0<C>,
    },
    /// The leadership schedule of the first block.
    Leadership {
        /// The last block of the main branch.
        head: HeaderHash,
        /// The application of the first block.
        task: AwaitBlock0Leadership<L>,
    },
    /// The way from the first block to the last.
    Stream {
        /// The first block.
        from: HeaderHash,
        /// The last block of the main branch.
        to: HeaderHash,
        /// The fork that is being built.
        branch: Branch,
    },
    /// The next block on the way.
    Next {
        /// The fork that is being built.
        branch: Branch,
    },
    /// The first check of a block's header.
    PreCheck {
        /// The fork that is being built.
        branch: Branch,
        /// The block.
        block: Block<C>,
        /// The first check.
        task: PreCheck,
    },
    /// The leadership schedule for a block that begins an epoch.
    Schedule {
        /// The fork that is being built.
        branch: Branch,
        /// The block.
        block: Block<C>,
        /// The second check.
        task: AwaitLeadership<L>,
    },
    /// The judgement of a block's header.
    Verify {
        /// The fork that is being built.
        branch: Branch,
        /// The block.
        block: Block<C>,
        /// The second check.
        task: AwaitVerification<L, S>,
    },
    /// The ledger after a block.
    Apply {
        /// The fork that is being built.
        branch: Branch,
        /// The application of the block.
        task: ApplyBlock<C, L, S>,
    },
}

impl<C, L, S> LoadFromStorage<C, L, S> {
    /// What has to be done next.
    pub open spec fn wanted(self) -> Request<C, L, S> {
        match self {
            LoadFromStorage::Exists { block0 } => Request::BlockExists(block0.header.hash),
            LoadFromStorage::Tag { block0: _ } => Request::GetTag(MAIN_BRANCH_TAG),
            LoadFromStorage::Ledger { head: _, task } => Request::NewLedger {
                block_id: task.header.hash,
                body: task.body,
            },
            LoadFromStorage::Leadership { head: _, task } => Request::NewLeadership {
                epoch: task.header.block_date.epoch,
                ledger: task.ledger,
            },
            LoadFromStorage::Stream { from, to, branch: _ } => Request::StreamFromTo { from, to },
            LoadFromStorage::Next { branch: _ } => Request::NextBlock,
            LoadFromStorage::PreCheck { branch: _, block: _, task } => Request::BlockExists(
                task.subject(),
            ),
            LoadFromStorage::Schedule { branch: _, block: _, task } => Request::NewLeadership {
                epoch: task.epoch,
                ledger: task.parent_ledger_state,
            },
            LoadFromStorage::Verify { branch: _, block, task } => Request::VerifyHeader {
                header: task.candidate.header,
                body: block.body,
                leadership: task.candidate.leadership_schedule,
            },
            LoadFromStorage::Apply { branch: _, task } => Request::ApplyLedger {
                ledger: task.candidate.parent_ledger_state,
                leadership: task.candidate.leadership_schedule,
                header: task.candidate.header,
                body: task.body,
            },
        }
    }

    /// The block that a reply may make the chain record.
    pub open spec fn recorded(self) -> Set<HeaderHash> {
        match self {
            LoadFromStorage::Leadership { head: _, task } => set![task.header.hash],
            LoadFromStorage::Apply { branch: _, task } => set![task.candidate.header.hash],
            _ => Set::empty(),
        }
    }

    /// The fork that is being built is one of the chain's, and the header that is
    /// being checked is the one of the block.
    pub open spec fn valid(self, chain: ChainView<L, S>) -> bool {
        match self {
            LoadFromStorage::Stream { from: _, to: _, branch } => chain.follows(branch),
            LoadFromStorage::Next { branch } => chain.follows(branch),
            LoadFromStorage::PreCheck { branch, block, task } => chain.follows(branch)
                && task.header() == block.header,
            LoadFromStorage::Schedule { branch, block, task } => chain.follows(branch)
                && task.header == block.header,
            LoadFromStorage::Verify { branch, block, task } => chain.follows(branch)
                && task.candidate.header == block.header,
            LoadFromStorage::Apply { branch, task: _ } => chain.follows(branch),
            _ => true,
        }
    }

    /// The reply is one to what was wanted, and loading can go on after it. It cannot
    /// where a block on the way turns out to be at hand already, or to have a parent
    /// that is not at hand.
    pub open spec fn accepts_spec(self, chain: ChainView<L, S>, reply: Reply<C, L, S>) -> bool {
        self.valid(chain) && match self {
            LoadFromStorage::Exists { .. } => reply is Exists,
            LoadFromStorage::Tag { .. } => reply is Tag,
            LoadFromStorage::Ledger { .. } => reply is Ledger,
            LoadFromStorage::Leadership { .. } => reply is Leadership,
            LoadFromStorage::Stream { .. } => reply is Stream,
            LoadFromStorage::Next { .. } => match reply {
                Reply::Block(Ok(Some(block))) => !chain.refs.dom().contains(block.header.hash),
                Reply::Block(_) => true,
                _ => false,
            },
            LoadFromStorage::PreCheck { branch: _, block: _, task: PreCheck::Own(_) } => reply
                is Exists,
            LoadFromStorage::PreCheck { branch: _, block: _, task: PreCheck::Parent(_) } =>
                match reply {
                    Reply::Exists(Err(_)) => true,
                    _ => false,
                },
            LoadFromStorage::Schedule { .. } => reply is Leadership,
            LoadFromStorage::Verify { .. } => reply is Verified,
            LoadFromStorage::Apply { .. } => reply is Ledger,
        }
    }

    /// How loading goes on after the first check of a block's header, where that check
    /// did not find that the block is at hand or that its parent is not.
    pub open spec fn pre_checked(
        chain: ChainView<L, S>,
        branch: Branch,
        block: Block<C>,
        outcome: Step<PreCheck, PreCheckedHeader<L, S>>,
    ) -> Step<Self, Branch> {
        match outcome {
            Step::Pending(task) => Step::Pending(
                LoadFromStorage::PreCheck { branch, block, task },
            ),
            Step::Done(Err(error)) => Step::Done(Err(error)),
            Step::Done(Ok(PreCheckedHeader::HeaderWithCache { header, parent_ref })) => {
                match chain.schedule(header, parent_ref.header) {
                    PostCheck::Schedule(task) => Step::Pending(
                        LoadFromStorage::Schedule { branch, block, task },
                    ),
                    PostCheck::Verify(task) => Step::Pending(
                        LoadFromStorage::Verify { branch, block, task },
                    ),
                }
            },
            Step::Done(Ok(_)) => arbitrary(),
        }
    }

    /// What a reply does to the loading of a chain. The first block has to be stored
    /// and the main branch tagged. The first block is applied, then each block on the
    /// way to the tagged one is checked and applied, and the fork moved on to it. That
    /// the storage has a block which it gave is nothing new, and no reason to stop.
    pub open spec fn step(self, chain: ChainView<L, S>, reply: Reply<C, L, S>) -> (
        ChainView<L, S>,
        Step<Self, Branch>,
    ) {
        match (self, reply) {
            (LoadFromStorage::Exists { block0 }, Reply::Exists(Ok(exists))) => (
                chain,
                if exists {
                    Step::Pending(LoadFromStorage::Tag { block0 })
                } else {
                    Step::Done(Err(Error::refusal(ErrorKind::Block0NotAlreadyInStorage)))
                },
            ),
            (LoadFromStorage::Exists { .. }, Reply::Exists(Err(cause))) => (
                chain,
                Step::Done(
                    Err(
                        Error::failure(
                            ErrorKind::Msg("Cannot check if block0 is in storage"),
                            cause,
                        ),
                    ),
                ),
            ),
            (LoadFromStorage::Tag { block0 }, Reply::Tag(Ok(Some(head)))) => (
                chain,
                Step::Pending(
                    LoadFromStorage::Ledger {
                        head,
                        task: ApplyBlock0 { header: block0.header, body: block0.body },
                    },
                ),
            ),
            (LoadFromStorage::Tag { .. }, Reply::Tag(Ok(None))) => (
                chain,
                Step::Done(Err(Error::refusal(ErrorKind::NoTag(MAIN_BRANCH_TAG)))),
            ),
            (LoadFromStorage::Tag { .. }, Reply::Tag(Err(cause))) => (
                chain,
                Step::Done(
                    Err(
                        Error::failure(ErrorKind::Msg("Cannot get hash of the HEAD tag"), cause),
                    ),
                ),
            ),
            (LoadFromStorage::Ledger { head, task }, Reply::Ledger(Ok(ledger))) => (
                chain,
                Step::Pending(
                    LoadFromStorage::Leadership {
                        head,
                        task: AwaitBlock0Leadership {
                            header: task.header,
                            ledger: Arc::new(ledger),
                        },
                    },
                ),
            ),
            (LoadFromStorage::Ledger { .. }, Reply::Ledger(Err(cause))) => (
                chain,
                Step::Done(Err(Error::failure(ErrorKind::Block0InitialLedgerError, cause))),
            ),
            (LoadFromStorage::Leadership { head, task }, Reply::Leadership(leadership)) => (
                chain.founded(
                    Ref {
                        header: task.header,
                        ledger: task.ledger,
                        leadership: Arc::new(leadership),
                    },
                ),
                Step::Pending(
                    LoadFromStorage::Stream {
                        from: task.header.hash,
                        to: head,
                        branch: Branch { index: chain.branches.len() as usize },
                    },
                ),
            ),
            (LoadFromStorage::Stream { from: _, to: _, branch }, Reply::Stream(Ok(found))) => (
                chain,
                if found {
                    Step::Pending(LoadFromStorage::Next { branch })
                } else {
                    Step::Done(
                        Err(
                            Error::refusal(
                                ErrorKind::Msg("Cannot iterate between block0 and HEAD"),
                            ),
                        ),
                    )
                },
            ),
            (LoadFromStorage::Stream { .. }, Reply::Stream(Err(cause))) => (
                chain,
                Step::Done(
                    Err(
                        Error::failure(
                            ErrorKind::Msg("Cannot iterate blocks from block0 to HEAD"),
                            cause,
                        ),
                    ),
                ),
            ),
            (LoadFromStorage::Next { branch }, Reply::Block(Ok(Some(block)))) => (
                chain,
                Self::pre_checked(chain, branch, block, chain.check_own(block.header)),
            ),
            (LoadFromStorage::Next { branch }, Reply::Block(Ok(None))) => (
                chain,
                Step::Done(Ok(branch)),
            ),
            (LoadFromStorage::Next { .. }, Reply::Block(Err(cause))) => (
                chain,
                Step::Done(
                    Err(
                        Error::failure(
                            ErrorKind::Msg("Error while iterating between bloc0 and HEAD"),
                            cause,
                        ),
                    ),
                ),
            ),
            (
                LoadFromStorage::PreCheck { branch, block, task: PreCheck::Own(header) },
                Reply::Exists(Ok(_)),
            ) => (
                chain,
                Self::pre_checked(chain, branch, block, chain.check_parent(header)),
            ),
            (LoadFromStorage::PreCheck { branch, block, task }, Reply::Exists(exists)) => (
                chain,
                Self::pre_checked(chain, branch, block, chain.check_resumed(task, exists)),
            ),
            (
                LoadFromStorage::Schedule { branch, block, task },
                Reply::Leadership(leadership),
            ) => (
                chain,
                Step::Pending(
                    LoadFromStorage::Verify {
                        branch,
                        block,
                        task: AwaitVerification {
                            candidate: Candidate {
                                header: task.header,
                                leadership_schedule: Arc::new(leadership),
                                parent_ledger_state: task.parent_ledger_state,
                            },
                        },
                    },
                ),
            ),
            (
                LoadFromStorage::Verify { branch, block, task },
                Reply::Verified(Verification::Success),
            ) => (
                chain,
                Step::Pending(
                    LoadFromStorage::Apply {
                        branch,
                        task: ApplyBlock { candidate: task.candidate, body: block.body },
                    },
                ),
            ),
            (
                LoadFromStorage::Verify { .. },
                Reply::Verified(Verification::Failure(reason)),
            ) => (
                chain,
                Step::Done(
                    Err(Error::refusal(ErrorKind::BLockHeaderVerificationFail(reason))),
                ),
            ),
            (LoadFromStorage::Apply { branch, task }, Reply::Ledger(ledger)) => {
                match chain.applied(task.candidate, ledger) {
                    (chain, Ok(reference)) => (
                        chain.with_tip(branch, reference),
                        Step::Pending(LoadFromStorage::Next { branch }),
                    ),
                    (chain, Err(error)) => (chain, Step::Done(Err(error))),
                }
            },
            _ => (chain, Step::Pending(self)),
        }
    }

    /// The block that a reply may make the chain record.
    pub fn records(&self) -> (res: Option<HeaderHash>)
        ensures
            self.recorded() == (match res {
                Some(header_hash) => set![header_hash],
                None => Set::empty(),
            }),
            res == (match *self {
                LoadFromStorage::Leadership { head: _, task } => Some(task.header.hash),
                LoadFromStorage::Apply { branch: _, task } => Some(task.candidate.header.hash),
                _ => None,
            }),
    {
        match self {
            LoadFromStorage::Leadership { head: _, task } => Some(task.header.hash),
            LoadFromStorage::Apply { branch: _, task } => Some(task.candidate.header.hash),
            _ => None,
        }
    }

    /// What has to be done next.
    pub fn request(&self) -> (res: Request<C, L, S>)
        ensures
            res == self.wanted(),
    {
        match self {
            LoadFromStorage::Exists { block0 } => Request::BlockExists(block0.header.hash),
            LoadFromStorage::Tag { block0: _ } => Request::GetTag(MAIN_BRANCH_TAG),
            LoadFromStorage::Ledger { head: _, task } => Request::NewLedger {
                block_id: task.header.hash,
                body: task.body.clone(),
            },
            LoadFromStorage::Leadership { head: _, task } => Request::NewLeadership {
                epoch: task.header.block_date.epoch,
                ledger: task.ledger.clone(),
            },
            LoadFromStorage::Stream { from, to, branch: _ } => Request::StreamFromTo {
                from: *from,
                to: *to,
            },
            LoadFromStorage::Next { branch: _ } => Request::NextBlock,
            LoadFromStorage::PreCheck { branch: _, block: _, task } => Request::BlockExists(
                task.block_id(),
            ),
            LoadFromStorage::Schedule { branch: _, block: _, task } => Request::NewLeadership {
                epoch: task.epoch,
                ledger: task.parent_ledger_state.clone(),
            },
            LoadFromStorage::Verify { branch: _, block, task } => Request::VerifyHeader {
                header: task.candidate.header,
                body: block.body.clone(),
                leadership: task.candidate.leadership_schedule.clone(),
            },
            LoadFromStorage::Apply { branch: _, task } => Request::ApplyLedger {
                ledger: task.candidate.parent_ledger_state.clone(),
                leadership: task.candidate.leadership_schedule.clone(),
                header: task.candidate.header,
                body: task.body.clone(),
            },
        }
    }
}

impl<L, S> Blockchain<L, S> {
    /// Begins to load the chain that the storage has, from its first block to the last
    /// one of the main branch.
    pub fn load_from_storage<C>(&self, block0: Block<C>) -> (res: LoadFromStorage<C, L, S>)
        ensures
            res == (LoadFromStorage::<C, L, S>::Exists { block0 }),
    {
        LoadFromStorage::Exists { block0 }
    }

    /// Whether loading can go on after the reply.
    pub fn accepts_load_from_storage<C>(
        &self,
        task: &LoadFromStorage<C, L, S>,
        reply: &Reply<C, L, S>,
    ) -> (res: bool)
        requires
            self.wf(),
        ensures
            res == task.accepts_spec(self@, *reply),
    {
        match (task, reply) {
            (LoadFromStorage::Exists { .. }, Reply::Exists(_)) => true,
            (LoadFromStorage::Tag { .. }, Reply::Tag(_)) => true,
            (LoadFromStorage::Ledger { .. }, Reply::Ledger(_)) => true,
            (LoadFromStorage::Leadership { .. }, Reply::Leadership(_)) => true,
            (LoadFromStorage::Stream { from: _, to: _, branch }, Reply::Stream(_)) => {
                self.has_branch(*branch)
            },
            (LoadFromStorage::Next { branch }, Reply::Block(Ok(Some(block)))) => {
                self.has_branch(*branch) && !self.has_ref(&block.header.hash)
            },
            (LoadFromStorage::Next { branch }, Reply::Block(_)) => self.has_branch(*branch),
            (
                LoadFromStorage::PreCheck { branch, block, task: PreCheck::Own(header) },
                Reply::Exists(_),
            ) => self.has_branch(*branch) && *header == block.header,
            (
                LoadFromStorage::PreCheck { branch, block, task: PreCheck::Parent(header) },
                Reply::Exists(Err(_)),
            ) => self.has_branch(*branch) && *header == block.header,
            (LoadFromStorage::Schedule { branch, block, task }, Reply::Leadership(_)) => {
                self.has_branch(*branch) && task.header == block.header
            },
            (LoadFromStorage::Verify { branch, block, task }, Reply::Verified(_)) => {
                self.has_branch(*branch) && task.candidate.header == block.header
            },
            (LoadFromStorage::Apply { branch, task: _ }, Reply::Ledger(_)) => {
                self.has_branch(*branch)
            },
            _ => false,
        }
    }

    /// Goes on with a block after the first check of its header.
    fn continue_pre_checked<C>(
        &self,
        branch: Branch,
        block: Block<C>,
        outcome: Step<PreCheck, PreCheckedHeader<L, S>>,
    ) -> (res: Step<LoadFromStorage<C, L, S>, Branch>)
        requires
            self.wf(),
            match outcome {
                Step::Pending(task) => task.header() == block.header,
                Step::Done(Err(_)) => true,
                Step::Done(Ok(PreCheckedHeader::HeaderWithCache { header, parent_ref })) => header
                    == block.header && self@.ledgers.dom().contains(parent_ref.header.hash),
                Step::Done(Ok(_)) => false,
            },
        ensures
            res == LoadFromStorage::pre_checked(self@, branch, block, outcome),
    {
        match outcome {
            Step::Pending(task) => Step::Pending(
                LoadFromStorage::PreCheck { branch, block, task },
            ),
            Step::Done(Err(error)) => Step::Done(Err(error)),
            Step::Done(Ok(PreCheckedHeader::HeaderWithCache { header, parent_ref })) => {
                match self.post_check_header(header, parent_ref) {
                    PostCheck::Schedule(task) => Step::Pending(
                        LoadFromStorage::Schedule { branch, block, task },
                    ),
                    PostCheck::Verify(task) => Step::Pending(
                        LoadFromStorage::Verify { branch, block, task },
                    ),
                }
            },
            Step::Done(Ok(_)) => vstd::pervasive::unreached(),
        }
    }

    /// Goes on with the loading of a chain. At the end there is a fork that ends in the
    /// last block that the storage gave.
    pub fn resume_load_from_storage<C>(
        &mut self,
        task: LoadFromStorage<C, L, S>,
        reply: Reply<C, L, S>,
    ) -> (res: Step<LoadFromStorage<C, L, S>, Branch>)
        requires
            old(self).wf(),
            task.accepts_spec(old(self)@, reply),
        ensures
            final(self).wf(),
            (final(self)@, res) == task.step(old(self)@, reply),
            res matches Step::Pending(next) ==> next.valid(final(self)@),
            res matches Step::Pending(LoadFromStorage::Stream { from: _, to: _, branch })
                ==> branch.index == old(self)@.branches.len(),
            res matches Step::Done(Ok(branch)) ==> final(self)@.follows(branch),
            final(self).lifetime() == old(self).lifetime(),
    {
        match (task, reply) {
            (LoadFromStorage::Exists { block0 }, Reply::Exists(exists)) => match exists {
                Ok(true) => Step::Pending(LoadFromStorage::Tag { block0 }),
                Ok(false) => Step::Done(Err(Error::new(ErrorKind::Block0NotAlreadyInStorage))),
                Err(cause) => Step::Done(
                    Err(
                        Error::with_chain(
                            cause,
                            ErrorKind::Msg("Cannot check if block0 is in storage"),
                        ),
                    ),
                ),
            },
            (LoadFromStorage::Tag { block0 }, Reply::Tag(tag)) => match tag {
                Ok(Some(head)) => {
                    let task = self.apply_block0(block0);
                    Step::Pending(LoadFromStorage::Ledger { head, task })
                },
                Ok(None) => Step::Done(Err(Error::new(ErrorKind::NoTag(MAIN_BRANCH_TAG)))),
                Err(cause) => Step::Done(
                    Err(
                        Error::with_chain(
                            cause,
                            ErrorKind::Msg("Cannot get hash of the HEAD tag"),
                        ),
                    ),
                ),
            },
            (LoadFromStorage::Ledger { head, task }, Reply::Ledger(ledger)) => {
                match task.resume(ledger) {
                    Ok(task) => Step::Pending(LoadFromStorage::Leadership { head, task }),
                    Err(error) => Step::Done(Err(error)),
                }
            },
            (LoadFromStorage::Leadership { head, task }, Reply::Leadership(leadership)) => {
                let from = task.header.hash;
                let branch = self.resume_apply_block0(task, leadership);
                Step::Pending(LoadFromStorage::Stream { from, to: head, branch })
            },
            (LoadFromStorage::Stream { from: _, to: _, branch }, Reply::Stream(found)) => {
                match found {
                    Ok(true) => Step::Pending(LoadFromStorage::Next { branch }),
                    Ok(false) => Step::Done(
                        Err(
                            Error::new(ErrorKind::Msg("Cannot iterate between block0 and HEAD")),
                        ),
                    ),
                    Err(cause) => Step::Done(
                        Err(
                            Error::with_chain(
                                cause,
                                ErrorKind::Msg("Cannot iterate blocks from block0 to HEAD"),
                            ),
                        ),
                    ),
                }
            },
            (LoadFromStorage::Next { branch }, Reply::Block(next)) => match next {
                Ok(Some(block)) => {
                    let outcome = self.pre_check_header(block.header);
                    self.continue_pre_checked(branch, block, outcome)
                },
                Ok(None) => Step::Done(Ok(branch)),
                Err(cause) => Step::Done(
                    Err(
                        Error::with_chain(
                            cause,
                            ErrorKind::Msg("Error while iterating between bloc0 and HEAD"),
                        ),
                    ),
                ),
            },
            (
                LoadFromStorage::PreCheck { branch, block, task: PreCheck::Own(header) },
                Reply::Exists(Ok(_)),
            ) => {
                let outcome = self.check_header_parent(header);
                self.continue_pre_checked(branch, block, outcome)
            },
            (LoadFromStorage::PreCheck { branch, block, task }, Reply::Exists(exists)) => {
                let outcome = self.resume_pre_check(task, exists);
                self.continue_pre_checked(branch, block, outcome)
            },
            (
                LoadFromStorage::Schedule { branch, block, task },
                Reply::Leadership(leadership),
            ) => {
                let task = task.resume(leadership);
                Step::Pending(LoadFromStorage::Verify { branch, block, task })
            },
            (LoadFromStorage::Verify { branch, block, task }, Reply::Verified(verification)) => {
                match task.resume(verification) {
                    Ok(post_checked_header) => {
                        let task = self.apply_block(post_checked_header, block);
                        Step::Pending(LoadFromStorage::Apply { branch, task })
                    },
                    Err(error) => Step::Done(Err(error)),
                }
            },
            (LoadFromStorage::Apply { branch, task }, Reply::Ledger(ledger)) => {
                match self.resume_apply_block(task, ledger) {
                    Ok(new_ref) => {
                        let _ = self.update_branch(branch, new_ref);
                        Step::Pending(LoadFromStorage::Next { branch })
                    },
                    Err(error) => Step::Done(Err(error)),
                }
            },
            (task, _) => Step::Pending(task),
        }
    }
}

} // verus!
