//! What is asked for while a chain is brought up, and how that ends.

use super::branch::Branch;
use super::chain::{ApplyBlock0, ChainView, PreCheck, Step, Verification};
use super::error::{Error, ErrorKind};
use super::load_block0::LoadFromBlock0;
use super::load_storage::LoadFromStorage;
use super::request::{Reply, Request};
use crate::block::{Block, Header};
use std::sync::Arc;
use vstd::prelude::*;

verus! {

/// A header that may come after another by its date and the length of its chain.
pub open spec fn may_succeed(header: Header, parent: Header) -> bool {
    let date = header.block_date;
    let parent_date = parent.block_date;
    &&& date.epoch > parent_date.epoch || (date.epoch == parent_date.epoch && date.slot_id
        > parent_date.slot_id)
    &&& header.chain_length.0 == parent.chain_length.0 + 1
}

impl<C, L, S> LoadFromStorage<C, L, S> {
    /// The schedule that a block given by the storage is judged by: the one that was made
    /// last if the block begins an epoch, and else the one recorded for its parent.
    pub open spec fn judging(
        replies: Seq<Reply<C, L, S>>,
        chain: ChainView<L, S>,
        header: Header,
    ) -> Arc<S> {
        if chain.refs[header.parent_hash].header.block_date.epoch < header.block_date.epoch {
            Arc::new(Self::scheduled(replies))
        } else {
            chain.leaderships[header.parent_hash].value
        }
    }

    /// The block that the storage gave last has a parent at hand and may succeed it.
    spec fn passed(
        replies: Seq<Reply<C, L, S>>,
        chain: ChainView<L, S>,
        block: Block<C>,
    ) -> bool {
        &&& replies.len() > 5
        &&& Self::given(replies) == Some(block)
        &&& chain.refs.dom().contains(block.header.parent_hash)
        &&& may_succeed(block.header, chain.refs[block.header.parent_hash].header)
    }

    /// What each task stands for, by what was told.
    spec fn stands_for(
        self,
        block0: Block<C>,
        replies: Seq<Reply<C, L, S>>,
        chain: ChainView<L, S>,
    ) -> bool {
        let n = replies.len();
        match self {
            LoadFromStorage::Exists { block0: block } => n == 0 && block == block0,
            LoadFromStorage::Tag { block0: block } => n == 1 && block == block0,
            LoadFromStorage::Ledger { head, task } => {
                &&& n == 2
                &&& replies[1] == Reply::<C, L, S>::Tag(Ok(Some(head)))
                &&& task == ApplyBlock0 { header: block0.header, body: block0.body }
            },
            LoadFromStorage::Leadership { head, task } => {
                &&& n == 3
                &&& replies[1] == Reply::<C, L, S>::Tag(Ok(Some(head)))
                &&& task.header == block0.header
                &&& replies[2] matches Reply::Ledger(Ok(ledger))
                &&& task.ledger == Arc::new(ledger)
            },
            LoadFromStorage::Stream { from, to, branch: _ } => {
                &&& n == 4
                &&& from == block0.header.hash
                &&& replies[1] == Reply::<C, L, S>::Tag(Ok(Some(to)))
            },
            LoadFromStorage::Next { .. } => n > 4 && (replies.last() is Stream
                || replies.last() is Ledger),
            LoadFromStorage::PreCheck { branch: _, block, task: PreCheck::Own(header) } => {
                &&& n > 5
                &&& replies.last() == Reply::<C, L, S>::Block(Ok(Some(block)))
                &&& header == block.header
            },
            LoadFromStorage::PreCheck { branch: _, block, task: PreCheck::Parent(header) } => {
                &&& n > 5
                &&& replies.last() is Exists
                &&& Self::given(replies) == Some(block)
                &&& header == block.header
                &&& !chain.refs.dom().contains(header.parent_hash)
            },
            LoadFromStorage::Schedule { branch: _, block, task } => {
                let parent_hash = block.header.parent_hash;
                &&& replies.last() is Exists
                &&& Self::passed(replies, chain, block)
                &&& chain.refs[parent_hash].header.block_date.epoch
                    < block.header.block_date.epoch
                &&& task.header == block.header
                &&& task.epoch == block.header.block_date.epoch
                &&& task.parent_ledger_state == chain.ledgers[parent_hash].value
            },
            LoadFromStorage::Verify { branch: _, block, task } => {
                let parent_hash = block.header.parent_hash;
                &&& replies.last() is Leadership || (replies.last() is Exists
                    && !(chain.refs[parent_hash].header.block_date.epoch
                    < block.header.block_date.epoch))
                &&& Self::passed(replies, chain, block)
                &&& task.candidate.header == block.header
                &&& task.candidate.leadership_schedule == Self::judging(
                    replies,
                    chain,
                    block.header,
                )
                &&& task.candidate.parent_ledger_state == chain.ledgers[parent_hash].value
            },
            LoadFromStorage::Apply { branch: _, task } => {
                let header = task.candidate.header;
                &&& replies.last() is Verified
                &&& Self::passed(replies, chain, Block { header, body: task.body })
                &&& task.candidate.leadership_schedule == Self::judging(replies, chain, header)
                &&& task.candidate.parent_ledger_state == chain.ledgers[header.parent_hash].value
            },
        }
    }

    proof fn lemma_stands_for(
        before: ChainView<L, S>,
        block0: Block<C>,
        replies: Seq<Reply<C, L, S>>,
    )
        requires
            before.consistent(),
            before.branches.len() < usize::MAX,
            (LoadFromStorage::Exists { block0 }).run_accepts(before, replies),
        ensures
            ({
                let (after, step) = (LoadFromStorage::Exists { block0 }).run(before, replies);
                step matches Step::Pending(task) ==> task.stands_for(block0, replies, after)
            }),
        decreases replies.len(),
    {
        if replies.len() > 0 {
            let earlier = replies.drop_last();
            Self::lemma_stands_for(before, block0, earlier);
            super::load_laws::law_loading_propagates_states(before, block0, earlier);
            let (chain, step) = (LoadFromStorage::Exists { block0 }).run(before, earlier);
            if earlier.len() >= 2 {
                assert(earlier[1] == replies[1]);
            }
            match step->Pending_0 {
                LoadFromStorage::PreCheck { branch: _, block, task: _ } => {
                    let parent_hash = block.header.parent_hash;
                    if chain.refs.dom().contains(parent_hash) {
                        assert(chain.backs(parent_hash, chain.refs[parent_hash]));
                    }
                },
                _ => {},
            }
        }
    }
}

/// While a chain is loaded from the storage, each reply leads to one request. First the
/// storage is asked for the first block, then for the tag of the main branch, then the
/// ledger and the schedule of the first block are made, and then the way to the tagged
/// block is asked for. After that one block after another is taken, and the storage is
/// asked whether it has the block. A block whose parent is not at hand makes it asked for
/// the parent. A block that begins an epoch has a schedule made, for that epoch and from
/// the ledger after its parent. The header is judged by that schedule, or within an epoch
/// by the one of its parent. A block that passed is applied to the ledger after its
/// parent, under the schedule that judged it. Then the next block is taken.
pub proof fn law_loading_asks_in_turn<C, L, S>(
    before: ChainView<L, S>,
    block0: Block<C>,
    replies: Seq<Reply<C, L, S>>,
)
    requires
        before.consistent(),
        before.branches.len() < usize::MAX,
        (LoadFromStorage::Exists { block0 }).run_accepts(before, replies),
        (LoadFromStorage::Exists { block0 }).run(before, replies).1 is Pending,
    ensures
        ({
            let (chain, step) = (LoadFromStorage::Exists { block0 }).run(before, replies);
            let asked = step->Pending_0.wanted();
            let n = replies.len();
            &&& n == 0 ==> asked == Request::<C, L, S>::BlockExists(block0.header.hash)
            &&& n == 1 ==> asked == Request::<C, L, S>::GetTag("HEAD")
            &&& n == 2 ==> asked == (Request::<C, L, S>::NewLedger {
                block_id: block0.header.hash,
                body: block0.body,
            })
            &&& n == 3 ==> {
                &&& replies[2] matches Reply::Ledger(Ok(ledger))
                &&& asked == (Request::<C, L, S>::NewLeadership {
                    epoch: block0.header.block_date.epoch,
                    ledger: Arc::new(ledger),
                })
            }
            &&& n == 4 ==> {
                &&& replies[1] matches Reply::Tag(Ok(Some(head)))
                &&& asked == (Request::<C, L, S>::StreamFromTo {
                    from: block0.header.hash,
                    to: head,
                })
            }
            &&& n > 4 ==> {
                let block = LoadFromStorage::given(replies)->0;
                let header = block.header;
                let at_hand = chain.refs.dom().contains(header.parent_hash);
                let parent = chain.refs[header.parent_hash].header;
                match replies.last() {
                    Reply::Stream(_) => asked == Request::<C, L, S>::NextBlock,
                    Reply::Block(next) => {
                        &&& next matches Ok(Some(block))
                        &&& asked == Request::<C, L, S>::BlockExists(block.header.hash)
                    },
                    Reply::Exists(_) => {
                        &&& !at_hand ==> asked == Request::<C, L, S>::BlockExists(
                            header.parent_hash,
                        )
                        &&& at_hand ==> may_succeed(header, parent)
                        &&& at_hand && parent.block_date.epoch < header.block_date.epoch ==> asked
                            == (Request::<C, L, S>::NewLeadership {
                            epoch: header.block_date.epoch,
                            ledger: chain.ledgers[header.parent_hash].value,
                        })
                        &&& at_hand && parent.block_date.epoch == header.block_date.epoch ==> asked
                            == (Request::<C, L, S>::VerifyHeader {
                            header,
                            body: block.body,
                            leadership: chain.leaderships[header.parent_hash].value,
                        })
                    },
                    Reply::Leadership(leadership) => asked == (Request::<C, L, S>::VerifyHeader {
                        header,
                        body: block.body,
                        leadership: Arc::new(leadership),
                    }),
                    Reply::Verified(_) => asked == (Request::<C, L, S>::ApplyLedger {
                        ledger: chain.ledgers[header.parent_hash].value,
                        leadership: LoadFromStorage::judging(replies, chain, header),
                        header,
                        body: block.body,
                    }),
                    Reply::Ledger(_) => asked == Request::<C, L, S>::NextBlock,
                    _ => false,
                }
            }
        }),
{
    LoadFromStorage::lemma_stands_for(before, block0, replies);
    if replies.len() > 0 {
        LoadFromStorage::lemma_stands_for(before, block0, replies.drop_last());
    }
}

/// Whenever the ledger is to be moved on by a block, that is the block that the storage
/// gave last; the ledger is the one recorded after the parent of the block; the header was
/// judged right before, under the same schedule; and the judgement was good.
pub proof fn law_block_is_applied_to_the_ledger_of_its_parent<C, L, S>(
    before: ChainView<L, S>,
    block0: Block<C>,
    replies: Seq<Reply<C, L, S>>,
    ledger: Arc<L>,
    leadership: Arc<S>,
    header: Header,
    body: Arc<C>,
)
    requires
        before.consistent(),
        before.branches.len() < usize::MAX,
        (LoadFromStorage::Exists { block0 }).run_accepts(before, replies),
        (LoadFromStorage::Exists { block0 }).run(before, replies).1 is Pending,
        (LoadFromStorage::Exists { block0 }).run(before, replies).1->Pending_0.wanted()
            == (Request::<C, L, S>::ApplyLedger { ledger, leadership, header, body }),
    ensures
        ({
            let start = LoadFromStorage::<C, L, S>::Exists { block0 };
            let chain = start.run(before, replies).0;
            let judged = start.run(before, replies.drop_last()).1;
            &&& LoadFromStorage::given(replies) == Some(Block { header, body })
            &&& chain.refs.dom().contains(header.parent_hash)
            &&& ledger == chain.ledgers[header.parent_hash].value
            &&& ledger == chain.refs[header.parent_hash].ledger
            &&& replies.last() == Reply::<C, L, S>::Verified(Verification::Success)
            &&& judged is Pending
            &&& judged->Pending_0.wanted() == (Request::<C, L, S>::VerifyHeader {
                header,
                body,
                leadership,
            })
        }),
{
    let earlier = replies.drop_last();
    LoadFromStorage::lemma_stands_for(before, block0, replies);
    LoadFromStorage::lemma_stands_for(before, block0, earlier);
    super::load_laws::law_loading_propagates_states(before, block0, replies);
    let chain = (LoadFromStorage::Exists { block0 }).run(before, replies).0;
    if chain.refs.dom().contains(header.parent_hash) {
        assert(chain.backs(header.parent_hash, chain.refs[header.parent_hash]));
    }
}

/// The loading of a chain ends well exactly when the storage has no more blocks, and then
/// with the fork that was begun. It fails exactly at a failure outside, at a first block
/// that is not stored, at a tag that is not there, at a way that is not there, and at a
/// block that may not succeed its parent; and the error says which. Else it goes on.
pub proof fn law_loading_ends_for_a_reason<C, L, S>(
    before: ChainView<L, S>,
    block0: Block<C>,
    replies: Seq<Reply<C, L, S>>,
)
    requires
        before.consistent(),
        before.branches.len() < usize::MAX,
        replies.len() > 0,
        (LoadFromStorage::Exists { block0 }).run_accepts(before, replies),
    ensures
        ({
            let (chain, step) = (LoadFromStorage::Exists { block0 }).run(before, replies);
            let n = replies.len();
            let header = LoadFromStorage::given(replies)->0.header;
            let parent = chain.refs[header.parent_hash].header;
            let later = header.block_date.epoch > parent.block_date.epoch || (
            header.block_date.epoch == parent.block_date.epoch && header.block_date.slot_id
                > parent.block_date.slot_id);
            let refused = |kind: ErrorKind|
                step == Step::<LoadFromStorage<C, L, S>, Branch>::Done(
                    Err(Error { kind, cause: None }),
                );
            let failed = |kind: ErrorKind, cause: String|
                step == Step::<LoadFromStorage<C, L, S>, Branch>::Done(
                    Err(Error { kind, cause: Some(cause) }),
                );
            match replies.last() {
                Reply::Exists(Ok(exists)) => if n == 1 {
                    if exists {
                        step is Pending
                    } else {
                        refused(ErrorKind::Block0NotAlreadyInStorage)
                    }
                } else if !chain.refs.dom().contains(header.parent_hash) || may_succeed(
                    header,
                    parent,
                ) {
                    step is Pending
                } else if !later {
                    refused(ErrorKind::Msg("block is not valid, date is set before parent's"))
                } else {
                    refused(
                        ErrorKind::Msg(
                            "block is not valid, chain length is not monotonically increasing",
                        ),
                    )
                },
                Reply::Exists(Err(cause)) => if n == 1 {
                    failed(ErrorKind::Msg("Cannot check if block0 is in storage"), cause)
                } else {
                    failed(ErrorKind::Msg("cannot check if the block is in the storage"), cause)
                },
                Reply::Tag(Ok(Some(_))) => n == 2 && step is Pending,
                Reply::Tag(Ok(None)) => n == 2 && refused(ErrorKind::NoTag("HEAD")),
                Reply::Tag(Err(cause)) => n == 2 && failed(
                    ErrorKind::Msg("Cannot get hash of the HEAD tag"),
                    cause,
                ),
                Reply::Ledger(Ok(_)) => step is Pending,
                Reply::Ledger(Err(cause)) => if n == 3 {
                    failed(ErrorKind::Block0InitialLedgerError, cause)
                } else {
                    failed(ErrorKind::CannotApplyBlock, cause)
                },
                Reply::Leadership(_) => step is Pending,
                Reply::Stream(Ok(found)) => if found {
                    step is Pending
                } else {
                    refused(ErrorKind::Msg("Cannot iterate between block0 and HEAD"))
                },
                Reply::Stream(Err(cause)) => failed(
                    ErrorKind::Msg("Cannot iterate blocks from block0 to HEAD"),
                    cause,
                ),
                Reply::Block(Ok(Some(_))) => step is Pending,
                Reply::Block(Ok(None)) => step == Step::<LoadFromStorage<C, L, S>, Branch>::Done(
                    Ok(Branch { index: before.branches.len() as usize }),
                ),
                Reply::Block(Err(cause)) => failed(
                    ErrorKind::Msg("Error while iterating between bloc0 and HEAD"),
                    cause,
                ),
                Reply::Verified(Verification::Success) => step is Pending,
                Reply::Verified(Verification::Failure(reason)) => refused(
                    ErrorKind::BLockHeaderVerificationFail(reason),
                ),
                Reply::Stored(_) => false,
            }
        }),
{
    let earlier = replies.drop_last();
    LoadFromStorage::lemma_stands_for(before, block0, earlier);
    super::load_laws::law_loading_propagates_states(before, block0, replies);
}

/// Loading can go on after every reply of the kind that was asked for, whatever it says,
/// with three exceptions: the storage gives a block that is at hand already, or it says of
/// a parent that is not at hand that it has it, or that it does not.
pub proof fn law_loading_takes_every_answer<C, L, S>(
    before: ChainView<L, S>,
    block0: Block<C>,
    replies: Seq<Reply<C, L, S>>,
    reply: Reply<C, L, S>,
)
    requires
        before.consistent(),
        before.branches.len() < usize::MAX,
        (LoadFromStorage::Exists { block0 }).run_accepts(before, replies),
        (LoadFromStorage::Exists { block0 }).run(before, replies).1 is Pending,
    ensures
        ({
            let start = LoadFromStorage::<C, L, S>::Exists { block0 };
            let (chain, step) = start.run(before, replies);
            let asked = step->Pending_0.wanted();
            let n = replies.len();
            step->Pending_0.accepts_spec(chain, reply) <==> match asked {
                Request::BlockExists(_) => reply matches Reply::Exists(exists) && (n > 1
                    && replies.last() is Exists ==> exists is Err),
                Request::GetTag(_) => reply is Tag,
                Request::NewLedger { .. } => reply is Ledger,
                Request::NewLeadership { .. } => reply is Leadership,
                Request::StreamFromTo { .. } => reply is Stream,
                Request::NextBlock => reply matches Reply::Block(next) && (next matches Ok(
                    Some(block),
                ) ==> !chain.refs.dom().contains(block.header.hash)),
                Request::VerifyHeader { .. } => reply is Verified,
                Request::ApplyLedger { .. } => reply is Ledger,
                _ => false,
            }
        }),
{
    LoadFromStorage::lemma_stands_for(before, block0, replies);
    LoadFromStorage::<C, L, S>::lemma_valid(before, block0, replies);
}

impl<C, L, S> LoadFromStorage<C, L, S> {
    proof fn lemma_valid(
        before: ChainView<L, S>,
        block0: Block<C>,
        replies: Seq<Reply<C, L, S>>,
    )
        requires
            before.consistent(),
            before.branches.len() < usize::MAX,
            (LoadFromStorage::Exists { block0 }).run_accepts(before, replies),
        ensures
            ({
                let (after, step) = (LoadFromStorage::Exists { block0 }).run(before, replies);
                step matches Step::Pending(task) ==> task.valid(after)
            }),
        decreases replies.len(),
    {
        if replies.len() > 0 {
            let earlier = replies.drop_last();
            Self::lemma_valid(before, block0, earlier);
            Self::lemma_stands_for(before, block0, replies);
            Self::lemma_stands_for(before, block0, earlier);
        }
    }
}

impl<C, L> LoadFromBlock0<C, L> {
    /// What each task stands for, by what was told.
    spec fn stands_for<S>(
        self,
        block0: Block<C>,
        replies: Seq<Reply<C, L, S>>,
        branch: Branch,
    ) -> bool {
        let n = replies.len();
        match self {
            LoadFromBlock0::Exists { block0: block } => n == 0 && block == block0,
            LoadFromBlock0::Ledger { block0: block, task } => {
                &&& n == 1
                &&& block == block0
                &&& task == ApplyBlock0 { header: block0.header, body: block0.body }
            },
            LoadFromBlock0::Leadership { block0: block, task } => {
                &&& n == 2
                &&& block == block0
                &&& task.header == block0.header
                &&& replies[1] matches Reply::Ledger(Ok(ledger))
                &&& task.ledger == Arc::new(ledger)
            },
            LoadFromBlock0::PutBlock { block0: block, branch: own } => n == 3 && block == block0
                && own == branch,
            LoadFromBlock0::PutTag { block0_id, branch: own } => n == 4 && block0_id
                == block0.header.hash && own == branch,
        }
    }

    proof fn lemma_stands_for<S>(
        before: ChainView<L, S>,
        block0: Block<C>,
        replies: Seq<Reply<C, L, S>>,
    )
        requires
            (LoadFromBlock0::<C, L>::Exists { block0 }).run_accepts(before, replies),
        ensures
            ({
                let (after, step) = (LoadFromBlock0::<C, L>::Exists { block0 }).run(
                    before,
                    replies,
                );
                let branch = Branch { index: before.branches.len() as usize };
                &&& step matches Step::Pending(task) ==> task.stands_for(block0, replies, branch)
                &&& replies.len() <= 2 ==> after == before
            }),
        decreases replies.len(),
    {
        if replies.len() > 0 {
            Self::lemma_stands_for(before, block0, replies.drop_last());
        }
    }
}

/// While a first block is loaded, each reply leads to one request. The storage is asked
/// for the block, its ledger and its schedule are made, the block is stored, and then it is
/// tagged as the last of the main branch.
pub proof fn law_first_block_is_asked_for_in_turn<C, L, S>(
    before: ChainView<L, S>,
    block0: Block<C>,
    replies: Seq<Reply<C, L, S>>,
    reply: Reply<C, L, S>,
)
    requires
        (LoadFromBlock0::<C, L>::Exists { block0 }).run_accepts(before, replies),
        (LoadFromBlock0::<C, L>::Exists { block0 }).run(before, replies).1 is Pending,
    ensures
        ({
            let task = (LoadFromBlock0::<C, L>::Exists { block0 }).run(
                before,
                replies,
            ).1->Pending_0;
            let asked = task.wanted::<S>();
            let n = replies.len();
            &&& n < 5
            &&& n == 0 ==> asked == Request::<C, L, S>::BlockExists(block0.header.hash)
            &&& n == 1 ==> asked == (Request::<C, L, S>::NewLedger {
                block_id: block0.header.hash,
                body: block0.body,
            })
            &&& n == 2 ==> {
                &&& replies[1] matches Reply::Ledger(Ok(ledger))
                &&& asked == (Request::<C, L, S>::NewLeadership {
                    epoch: block0.header.block_date.epoch,
                    ledger: Arc::new(ledger),
                })
            }
            &&& n == 3 ==> asked == Request::<C, L, S>::PutBlock(block0)
            &&& n == 4 ==> asked == Request::<C, L, S>::PutTag("HEAD", block0.header.hash)
            &&& task.accepts_spec(reply) <==> {
                ||| n == 0 && reply is Exists
                ||| n == 1 && reply is Ledger
                ||| n == 2 && reply is Leadership
                ||| n >= 3 && reply is Stored
            }
        }),
{
    LoadFromBlock0::<C, L>::lemma_stands_for(before, block0, replies);
}

/// The loading of a first block ends well exactly when the block is tagged, and then with
/// the fork that was begun. It fails exactly at a block that is stored already and at a
/// failure outside, and the error says which. Else it goes on.
pub proof fn law_first_block_ends_for_a_reason<C, L, S>(
    before: ChainView<L, S>,
    block0: Block<C>,
    replies: Seq<Reply<C, L, S>>,
)
    requires
        replies.len() > 0,
        (LoadFromBlock0::<C, L>::Exists { block0 }).run_accepts(before, replies),
    ensures
        ({
            let step = (LoadFromBlock0::<C, L>::Exists { block0 }).run(before, replies).1;
            let n = replies.len();
            let refused = |kind: ErrorKind|
                step == Step::<LoadFromBlock0<C, L>, Branch>::Done(
                    Err(Error { kind, cause: None }),
                );
            let failed = |kind: ErrorKind, cause: String|
                step == Step::<LoadFromBlock0<C, L>, Branch>::Done(
                    Err(Error { kind, cause: Some(cause) }),
                );
            match replies.last() {
                Reply::Exists(Ok(exists)) => if exists {
                    refused(ErrorKind::Block0AlreadyInStorage)
                } else {
                    step is Pending
                },
                Reply::Exists(Err(cause)) => failed(
                    ErrorKind::Msg("Cannot check if block0 is in storage"),
                    cause,
                ),
                Reply::Ledger(Ok(_)) => step is Pending,
                Reply::Ledger(Err(cause)) => failed(ErrorKind::Block0InitialLedgerError, cause),
                Reply::Leadership(_) => step is Pending,
                Reply::Stored(Ok(_)) => if n == 4 {
                    step is Pending
                } else {
                    step == Step::<LoadFromBlock0<C, L>, Branch>::Done(
                        Ok(Branch { index: before.branches.len() as usize }),
                    )
                },
                Reply::Stored(Err(cause)) => if n == 4 {
                    failed(ErrorKind::Msg("Cannot put block0 in storage"), cause)
                } else {
                    failed(ErrorKind::Msg("Cannot put block0's hash in the HEAD tag"), cause)
                },
                _ => false,
            }
        }),
{
    LoadFromBlock0::<C, L>::lemma_stands_for(before, block0, replies.drop_last());
}

} // verus!
