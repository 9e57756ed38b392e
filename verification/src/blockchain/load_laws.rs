//! What holds of the loading of a chain from its beginning to its end.

use super::branch::Branch;
use super::chain::{AwaitVerification, Candidate, ChainView, PreCheck, Step, Verification};
use super::load_block0::LoadFromBlock0;
use super::load_storage::LoadFromStorage;
use super::reference::Ref;
use super::request::{Reply, Request, MAIN_BRANCH_TAG};
use crate::block::{Block, Header, HeaderHash};
use std::sync::Arc;
use vstd::prelude::*;

verus! {

impl<C, L> LoadFromBlock0<C, L> {
    /// Where a number of replies, one after the other, lead the loading of a first
    /// block. Replies after the end change nothing.
    pub open spec fn run<S>(self, chain: ChainView<L, S>, replies: Seq<Reply<C, L, S>>) -> (
        ChainView<L, S>,
        Step<Self, Branch>,
    )
        decreases replies.len(),
    {
        if replies.len() == 0 {
            (chain, Step::Pending(self))
        } else {
            let (chain, step) = self.run(chain, replies.drop_last());
            match step {
                Step::Pending(task) => task.step(chain, replies.last()),
                Step::Done(_) => (chain, step),
            }
        }
    }
}

impl<C, L> LoadFromBlock0<C, L> {
    /// Each of the replies is one that loading waits for.
    pub open spec fn run_accepts<S>(
        self,
        chain: ChainView<L, S>,
        replies: Seq<Reply<C, L, S>>,
    ) -> bool
        decreases replies.len(),
    {
        replies.len() == 0 || {
            &&& self.run_accepts(chain, replies.drop_last())
            &&& match self.run(chain, replies.drop_last()) {
                (_, Step::Pending(task)) => task.accepts_spec(replies.last()),
                (_, Step::Done(_)) => false,
            }
        }
    }

    /// The stage that a number of replies have led to, if loading is not over.
    spec fn stage(self) -> nat {
        match self {
            LoadFromBlock0::Exists { .. } => 0,
            LoadFromBlock0::Ledger { .. } => 1,
            LoadFromBlock0::Leadership { .. } => 2,
            LoadFromBlock0::PutBlock { .. } => 3,
            LoadFromBlock0::PutTag { .. } => 4,
        }
    }

    /// The reply lets loading go on from the stage that the number stands for.
    pub open spec fn favours<S>(stage: int, reply: Reply<C, L, S>) -> bool {
        match reply {
            Reply::Exists(Ok(exists)) => stage == 0 && !exists,
            Reply::Ledger(Ok(_)) => stage == 1,
            Reply::Leadership(_) => stage == 2,
            Reply::Stored(Ok(_)) => stage == 3 || stage == 4,
            _ => false,
        }
    }

    proof fn lemma_stages<S>(
        chain: ChainView<L, S>,
        block0: Block<C>,
        replies: Seq<Reply<C, L, S>>,
    )
        requires
            (LoadFromBlock0::<C, L>::Exists { block0 }).run_accepts(chain, replies),
        ensures
            replies.len() <= 5,
            match (LoadFromBlock0::<C, L>::Exists { block0 }).run(chain, replies).1 {
                Step::Pending(task) => {
                    &&& task.stage() == replies.len()
                    &&& forall|i: int|
                        0 <= i < replies.len() ==> Self::favours(i, #[trigger] replies[i])
                },
                Step::Done(Ok(_)) => {
                    &&& replies.len() == 5
                    &&& forall|i: int|
                        0 <= i < replies.len() ==> Self::favours(i, #[trigger] replies[i])
                },
                Step::Done(Err(_)) => {
                    &&& replies.len() > 0
                    &&& !Self::favours(replies.len() - 1, replies.last())
                },
            },
        decreases replies.len(),
    {
        if replies.len() > 0 {
            let earlier = replies.drop_last();
            Self::lemma_stages(chain, block0, earlier);
            assert forall|i: int|
                0 <= i < replies.len() && Self::favours(
                    replies.len() - 1,
                    replies.last(),
                ) implies Self::favours(i, #[trigger] replies[i]) by {
                if i < replies.len() - 1 {
                    assert(earlier[i] == replies[i]);
                }
            }
        }
    }

    /// Where the chain stands after a number of replies.
    proof fn lemma_first_block<S>(
        chain: ChainView<L, S>,
        block0: Block<C>,
        replies: Seq<Reply<C, L, S>>,
    )
        requires
            (LoadFromBlock0::<C, L>::Exists { block0 }).run_accepts(chain, replies),
        ensures
            ({
                let (after, step) = (LoadFromBlock0::<C, L>::Exists { block0 }).run(chain, replies);
                let founded = chain.founded(
                    Ref {
                        header: block0.header,
                        ledger: Arc::new(replies[1]->Ledger_0->Ok_0),
                        leadership: Arc::new(replies[2]->Leadership_0),
                    },
                );
                &&& match step {
                    Step::Pending(task) => {
                        &&& task.stage() == replies.len()
                        &&& replies.len() < 3 ==> after == chain
                        &&& replies.len() >= 3 ==> after == founded
                        &&& match task {
                            LoadFromBlock0::Ledger { block0: _, task } => task.header
                                == block0.header,
                            LoadFromBlock0::Leadership { block0: _, task } => task.header
                                == block0.header && task.ledger == Arc::new(
                                replies[1]->Ledger_0->Ok_0,
                            ),
                            LoadFromBlock0::Exists { block0: block } => block == block0,
                            _ => true,
                        }
                    },
                    Step::Done(Ok(_)) => true,
                    Step::Done(Err(_)) => {
                        &&& replies.len() > 0
                        &&& replies.len() <= 3 ==> after == chain
                        &&& replies.len() > 3 ==> after == founded
                    },
                }
            }),
        decreases replies.len(),
    {
        if replies.len() > 0 {
            let earlier = replies.drop_last();
            Self::lemma_first_block(chain, block0, earlier);
            if earlier.len() >= 2 {
                assert(earlier[1] == replies[1]);
            }
            if earlier.len() >= 3 {
                assert(earlier[2] == replies[2]);
            }
        }
    }
}

impl<C, L, S> LoadFromStorage<C, L, S> {
    /// Where a number of replies, one after the other, lead the loading of a chain.
    pub open spec fn run(self, chain: ChainView<L, S>, replies: Seq<Reply<C, L, S>>) -> (
        ChainView<L, S>,
        Step<Self, Branch>,
    )
        decreases replies.len(),
    {
        if replies.len() == 0 {
            (chain, Step::Pending(self))
        } else {
            let (chain, step) = self.run(chain, replies.drop_last());
            match step {
                Step::Pending(task) => task.step(chain, replies.last()),
                Step::Done(_) => (chain, step),
            }
        }
    }

    /// Each of the replies is one that loading waits for and can go on after.
    pub open spec fn run_accepts(
        self,
        chain: ChainView<L, S>,
        replies: Seq<Reply<C, L, S>>,
    ) -> bool
        decreases replies.len(),
    {
        replies.len() == 0 || {
            &&& self.run_accepts(chain, replies.drop_last())
            &&& match self.run(chain, replies.drop_last()) {
                (chain, Step::Pending(task)) => task.accepts_spec(chain, replies.last()),
                (_, Step::Done(_)) => false,
            }
        }
    }

    /// The headers of the blocks that the storage gave, in its order.
    pub open spec fn streamed(replies: Seq<Reply<C, L, S>>) -> Seq<Header>
        decreases replies.len(),
    {
        if replies.len() == 0 {
            Seq::empty()
        } else {
            match replies.last() {
                Reply::Block(Ok(Some(block))) => Self::streamed(replies.drop_last()).push(
                    block.header,
                ),
                _ => Self::streamed(replies.drop_last()),
            }
        }
    }

    /// The last of the given headers, or that of the first block if there are none.
    pub open spec fn last_of(block0: Header, headers: Seq<Header>) -> Header {
        if headers.len() == 0 {
            block0
        } else {
            headers.last()
        }
    }

    /// The blocks of the headers, with the first block.
    pub open spec fn hashes(block0: Header, headers: Seq<Header>) -> Set<HeaderHash> {
        Set::new(
            |h: HeaderHash|
                h == block0.hash || exists|i: int|
                    0 <= i < headers.len() && (#[trigger] headers[i]).hash == h,
        )
    }

    /// The block that the storage gave last, if it gave one.
    pub open spec fn given(replies: Seq<Reply<C, L, S>>) -> Option<Block<C>>
        decreases replies.len(),
    {
        if replies.len() == 0 {
            None
        } else {
            match replies.last() {
                Reply::Block(Ok(Some(block))) => Some(block),
                _ => Self::given(replies.drop_last()),
            }
        }
    }

    /// The schedule that was made last.
    pub open spec fn scheduled(replies: Seq<Reply<C, L, S>>) -> S
        decreases replies.len(),
    {
        if replies.len() == 0 {
            arbitrary()
        } else {
            match replies.last() {
                Reply::Leadership(leadership) => leadership,
                _ => Self::scheduled(replies.drop_last()),
            }
        }
    }

    /// The blocks after the first that the ledger took, in their order.
    pub open spec fn taken(replies: Seq<Reply<C, L, S>>) -> Seq<StoredBlock<C, L, S>>
        decreases replies.len(),
    {
        if replies.len() == 0 {
            Seq::empty()
        } else {
            let earlier = replies.drop_last();
            match (Self::given(earlier), replies.last()) {
                (Some(block), Reply::Ledger(Ok(ledger))) => Self::taken(earlier).push(
                    StoredBlock { block, leadership: Self::scheduled(earlier), ledger },
                ),
                _ => Self::taken(earlier),
            }
        }
    }

    /// The reference to the first block: the third reply is its ledger, and the fourth
    /// its schedule.
    pub open spec fn opened(block0: Header, replies: Seq<Reply<C, L, S>>) -> Ref<L, S> {
        Ref {
            header: block0,
            ledger: Arc::new(replies[2]->Ledger_0->Ok_0),
            leadership: Arc::new(replies[3]->Leadership_0),
        }
    }

    /// The chain `before` after the first block, and then the blocks that the ledger
    /// took, were recorded with the states that the replies give.
    pub open spec fn reached(
        before: ChainView<L, S>,
        block0: Header,
        replies: Seq<Reply<C, L, S>>,
    ) -> ChainView<L, S> {
        StoredBlock::brought_up(before, Self::opened(block0, replies), Self::taken(replies))
    }

    /// The chain `after` has grown out of `before` by a fork that begins with `block0`
    /// and ends in the last of `headers`: all their blocks are at hand, each of them may
    /// follow a parent that is at hand and within an epoch has its schedule, and other
    /// forks and other blocks are as they were.
    pub open spec fn grown(
        before: ChainView<L, S>,
        after: ChainView<L, S>,
        branch: Branch,
        block0: Header,
        headers: Seq<Header>,
    ) -> bool {
        &&& after.branches.len() == before.branches.len() + 1
        &&& branch.index == before.branches.len()
        &&& after.branches.drop_last() == before.branches
        &&& after.branches.last().header == Self::last_of(block0, headers)
        &&& after.knows(block0)
        &&& forall|i: int|
            0 <= i < headers.len() ==> after.knows(#[trigger] headers[i]) && after.links(
                headers[i],
            ) && after.inherits(headers[i])
        &&& before.kept_by(after, Self::hashes(block0, headers))
    }

    /// A block is on its way into the chain.
    spec fn entering(
        before: ChainView<L, S>,
        after: ChainView<L, S>,
        branch: Branch,
        block0: Header,
        headers: Seq<Header>,
        header: Header,
    ) -> bool {
        &&& headers.len() > 0
        &&& headers.last() == header
        &&& Self::grown(before, after, branch, block0, headers.drop_last())
        &&& !after.refs.dom().contains(header.hash)
    }

    /// A candidate may follow its parent, and within an epoch has the parent's schedule.
    spec fn fits(chain: ChainView<L, S>, candidate: Candidate<L, S>) -> bool {
        let header = candidate.header;
        let parent = chain.refs[header.parent_hash];
        &&& chain.links(header)
        &&& header.block_date.epoch <= parent.header.block_date.epoch
            ==> candidate.leadership_schedule == parent.leadership
    }

    /// What holds after any number of replies.
    spec fn progress(
        before: ChainView<L, S>,
        block0: Block<C>,
        headers: Seq<Header>,
        after: ChainView<L, S>,
        step: Step<Self, Branch>,
    ) -> bool {
        &&& after.consistent()
        &&& before.kept_by(after, Self::hashes(block0.header, headers))
        &&& match step {
            Step::Done(Err(_)) => true,
            Step::Done(Ok(branch)) => Self::grown(before, after, branch, block0.header, headers),
            Step::Pending(task) => match task {
                LoadFromStorage::Exists { block0: block } => headers.len() == 0 && after == before
                    && block == block0,
                LoadFromStorage::Tag { block0: block } => headers.len() == 0 && after == before
                    && block == block0,
                LoadFromStorage::Ledger { head: _, task } => headers.len() == 0 && after == before
                    && task.header == block0.header && task.body == block0.body,
                LoadFromStorage::Leadership { head: _, task } => headers.len() == 0 && after
                    == before && task.header == block0.header,
                LoadFromStorage::Stream { from, to: _, branch } => headers.len() == 0 && from
                    == block0.header.hash && Self::grown(
                    before,
                    after,
                    branch,
                    block0.header,
                    headers,
                ),
                LoadFromStorage::Next { branch } => Self::grown(
                    before,
                    after,
                    branch,
                    block0.header,
                    headers,
                ),
                LoadFromStorage::PreCheck { branch, block, task } => Self::entering(
                    before,
                    after,
                    branch,
                    block0.header,
                    headers,
                    block.header,
                ) && task.header() == block.header,
                LoadFromStorage::Schedule { branch, block, task } => Self::entering(
                    before,
                    after,
                    branch,
                    block0.header,
                    headers,
                    block.header,
                ) && task.header == block.header && after.links(block.header)
                    && after.refs[block.header.parent_hash].header.block_date.epoch
                    < block.header.block_date.epoch,
                LoadFromStorage::Verify { branch, block, task } => Self::entering(
                    before,
                    after,
                    branch,
                    block0.header,
                    headers,
                    block.header,
                ) && task.candidate.header == block.header && Self::fits(after, task.candidate),
                LoadFromStorage::Apply { branch, task } => Self::entering(
                    before,
                    after,
                    branch,
                    block0.header,
                    headers,
                    task.candidate.header,
                ) && Self::fits(after, task.candidate),
            },
        }
    }

    proof fn lemma_founded(before: ChainView<L, S>, reference: Ref<L, S>)
        requires
            before.consistent(),
            before.branches.len() < usize::MAX,
        ensures
            before.founded(reference).consistent(),
            Self::grown(
                before,
                before.founded(reference),
                Branch { index: before.branches.len() as usize },
                reference.header,
                Seq::empty(),
            ),
    {
        let after = before.founded(reference);
        before.lemma_stored(reference);
        assert(after.branches.drop_last() =~= before.branches);
        assert forall|h: HeaderHash| #[trigger] after.refs.dom().contains(h) implies after.backs(
            h,
            after.refs[h],
        ) by {
            assert(before.stored(reference).backs(h, before.stored(reference).refs[h]));
        }
        assert forall|i: int| 0 <= i < after.branches.len() implies after.ledgers.dom().contains(
            (#[trigger] after.branches[i]).header.hash,
        ) by {
            if i < before.branches.len() {
                assert(after.branches[i] == before.branches[i]);
            }
        }
        assert(Self::hashes(reference.header, Seq::empty()).contains(reference.header.hash));
    }

    proof fn lemma_kept(
        before: ChainView<L, S>,
        after: ChainView<L, S>,
        block0: Header,
        headers: Seq<Header>,
    )
        requires
            headers.len() > 0,
            before.kept_by(after, Self::hashes(block0, headers.drop_last())),
        ensures
            before.kept_by(after, Self::hashes(block0, headers)),
    {
        assert forall|h: HeaderHash|
            !Self::hashes(block0, headers).contains(h) implies #[trigger] before.same_at(
            after,
            h,
        ) by {
            let fewer = headers.drop_last();
            if Self::hashes(block0, fewer).contains(h) {
                let i = choose|i: int| 0 <= i < fewer.len() && (#[trigger] fewer[i]).hash == h;
                assert(headers[i] == fewer[i]);
            }
        }
    }

    proof fn lemma_joined(
        before: ChainView<L, S>,
        chain: ChainView<L, S>,
        branch: Branch,
        block0: Header,
        headers: Seq<Header>,
        reference: Ref<L, S>,
    )
        requires
            chain.consistent(),
            Self::entering(before, chain, branch, block0, headers, reference.header),
            chain.links(reference.header),
            reference.header.block_date.epoch
                <= chain.refs[reference.header.parent_hash].header.block_date.epoch
                ==> reference.leadership == chain.refs[reference.header.parent_hash].leadership,
        ensures
            chain.stored(reference).with_tip(branch, reference).consistent(),
            Self::grown(
                before,
                chain.stored(reference).with_tip(branch, reference),
                branch,
                block0,
                headers,
            ),
    {
        let after = chain.stored(reference).with_tip(branch, reference);
        chain.lemma_stored(reference);
        chain.stored(reference).lemma_with_tip(branch, reference);
        assert(after.branches.drop_last() =~= chain.branches.drop_last());
        let parent_hash = reference.header.parent_hash;
        assert(chain.backs(parent_hash, chain.refs[parent_hash]));
        assert forall|i: int| 0 <= i < headers.len() implies after.knows(#[trigger] headers[i])
            && after.links(headers[i]) && after.inherits(headers[i]) by {
            if i < headers.len() - 1 {
                assert(headers.drop_last()[i] == headers[i]);
                assert(chain.knows(headers.drop_last()[i]));
            }
        }
        assert(before.kept_by(after, Self::hashes(block0, headers))) by {
            Self::lemma_kept(before, chain, block0, headers);
            assert(headers[headers.len() - 1].hash == reference.header.hash);
            assert forall|h: HeaderHash|
                !Self::hashes(block0, headers).contains(h) implies #[trigger] before.same_at(
                after,
                h,
            ) by {
                assert(before.same_at(chain, h));
                assert(h != reference.header.hash);
            }
        }
    }

    proof fn lemma_progress(
        before: ChainView<L, S>,
        block0: Block<C>,
        replies: Seq<Reply<C, L, S>>,
    )
        requires
            before.consistent(),
            before.branches.len() < usize::MAX,
            (LoadFromStorage::Exists { block0 }).run_accepts(before, replies),
        ensures
            ({
                let (after, step) = (LoadFromStorage::Exists { block0 }).run(before, replies);
                Self::progress(before, block0, Self::streamed(replies), after, step)
            }),
        decreases replies.len(),
    {
        let start = LoadFromStorage::Exists { block0 };
        if replies.len() > 0 {
            let earlier = replies.drop_last();
            let reply = replies.last();
            Self::lemma_progress(before, block0, earlier);
            let (chain, step) = start.run(before, earlier);
            let headers = Self::streamed(earlier);
            let task = step->Pending_0;
            let (after, next) = task.step(chain, reply);
            match (task, reply) {
                (LoadFromStorage::Leadership { head: _, task }, Reply::Leadership(leadership)) => {
                    let reference = Ref {
                        header: task.header,
                        ledger: task.ledger,
                        leadership: Arc::new(leadership),
                    };
                    Self::lemma_founded(before, reference);
                    assert(headers =~= Seq::empty());
                },
                (LoadFromStorage::Next { branch }, Reply::Block(Ok(Some(block)))) => {
                    assert(Self::streamed(replies).drop_last() =~= headers);
                    Self::lemma_kept(before, chain, block0.header, Self::streamed(replies));
                },
                (LoadFromStorage::PreCheck { branch, block, task }, Reply::Exists(_)) => {
                    let parent_hash = block.header.parent_hash;
                    if chain.refs.dom().contains(parent_hash) {
                        assert(chain.backs(parent_hash, chain.refs[parent_hash]));
                    }
                },
                (LoadFromStorage::Apply { branch, task }, Reply::Ledger(Ok(ledger))) => {
                    let reference = Ref {
                        header: task.candidate.header,
                        ledger: Arc::new(ledger),
                        leadership: task.candidate.leadership_schedule,
                    };
                    Self::lemma_joined(before, chain, branch, block0.header, headers, reference);
                },
                _ => {},
            }
        }
    }
}

/// A block that the storage has, and what is made of it on its way into a chain.
pub struct StoredBlock<C, L, S> {
    /// The block.
    pub block: Block<C>,
    /// The schedule for the epoch of the block, if the block begins one.
    pub leadership: S,
    /// The ledger after the block.
    pub ledger: L,
}

impl<C, L, S> StoredBlock<C, L, S> {
    /// The headers of the blocks.
    pub open spec fn headers(blocks: Seq<Self>) -> Seq<Header> {
        Seq::new(blocks.len(), |i: int| blocks[i].block.header)
    }

    /// The block at `i` may follow the one before it, is not at hand yet, and is no other
    /// of the blocks.
    pub open spec fn continues(
        before: ChainView<L, S>,
        block0: Header,
        blocks: Seq<Self>,
        i: int,
    ) -> bool {
        let header = blocks[i].block.header;
        let previous = if i == 0 {
            block0
        } else {
            blocks[i - 1].block.header
        };
        &&& header.parent_hash == previous.hash
        &&& header.extends(previous)
        &&& !before.refs.dom().contains(header.hash)
        &&& header.hash != block0.hash
        &&& forall|j: int| 0 <= j < i ==> (#[trigger] blocks[j]).block.header.hash != header.hash
    }

    /// The blocks are a way that leads on from the first block.
    pub open spec fn lead_on(before: ChainView<L, S>, block0: Header, blocks: Seq<Self>) -> bool {
        forall|i: int|
            0 <= i < blocks.len() ==> #[trigger] Self::continues(before, block0, blocks, i)
    }

    /// What is told of a block.
    pub open spec fn entering(
        self,
        previous: Header,
        replies: Seq<Reply<C, L, S>>,
    ) -> Seq<Reply<C, L, S>> {
        let given = replies.push(Reply::Block(Ok(Some(self.block)))).push(Reply::Exists(Ok(true)));
        let scheduled = if previous.block_date.epoch < self.block.header.block_date.epoch {
            given.push(Reply::Leadership(self.leadership))
        } else {
            given
        };
        scheduled.push(Reply::Verified(Verification::Success)).push(Reply::Ledger(Ok(self.ledger)))
    }

    /// What is told, up to the last of the blocks, of a chain that the storage has: the
    /// first block is there, the main branch is tagged, and every block that the storage
    /// gives is one that it has, fits its schedule and is taken by the ledger.
    pub open spec fn told(
        block0: Header,
        head: HeaderHash,
        ledger: L,
        leadership: S,
        blocks: Seq<Self>,
    ) -> Seq<Reply<C, L, S>>
        decreases blocks.len(),
    {
        if blocks.len() == 0 {
            seq![
                Reply::Exists(Ok(true)),
                Reply::Tag(Ok(Some(head))),
                Reply::Ledger(Ok(ledger)),
                Reply::Leadership(leadership),
                Reply::Stream(Ok(true)),
            ]
        } else {
            let earlier = blocks.drop_last();
            let next = blocks.last();
            let previous = LoadFromStorage::<C, L, S>::last_of(block0, Self::headers(earlier));
            next.entering(previous, Self::told(block0, head, ledger, leadership, earlier))
        }
    }

    /// The reference to the block, after the block with the reference `parent`. Within an
    /// epoch the schedule stays.
    pub open spec fn reference(self, parent: Ref<L, S>) -> Ref<L, S> {
        let header = self.block.header;
        Ref {
            header,
            ledger: Arc::new(self.ledger),
            leadership: if parent.header.block_date.epoch < header.block_date.epoch {
                Arc::new(self.leadership)
            } else {
                parent.leadership
            },
        }
    }

    /// The chain after the first block and the blocks were recorded, each after its
    /// parent, with a new fork that ends in the last of them.
    pub open spec fn brought_up(
        before: ChainView<L, S>,
        first: Ref<L, S>,
        blocks: Seq<Self>,
    ) -> ChainView<L, S>
        decreases blocks.len(),
    {
        if blocks.len() == 0 {
            before.founded(first)
        } else {
            let earlier = Self::brought_up(before, first, blocks.drop_last());
            let parent = earlier.refs[blocks.last().block.header.parent_hash];
            let reference = blocks.last().reference(parent);
            let branch = Branch { index: before.branches.len() as usize };
            earlier.stored(reference).with_tip(branch, reference)
        }
    }

    proof fn lemma_lead_on(before: ChainView<L, S>, block0: Header, blocks: Seq<Self>)
        requires
            Self::lead_on(before, block0, blocks),
            blocks.len() > 0,
        ensures
            Self::lead_on(before, block0, blocks.drop_last()),
    {
        let earlier = blocks.drop_last();
        assert forall|i: int| 0 <= i < earlier.len() implies #[trigger] Self::continues(
            before,
            block0,
            earlier,
            i,
        ) by {
            assert(Self::continues(before, block0, blocks, i));
            assert(earlier[i] == blocks[i]);
            assert forall|j: int| 0 <= j < i implies (#[trigger] earlier[j]).block.header.hash
                != earlier[i].block.header.hash by {
                assert(earlier[j] == blocks[j]);
            }
        }
    }

    /// What there is to know of the chain before it goes on from the last block.
    proof fn lemma_brought_up(before: ChainView<L, S>, first: Ref<L, S>, blocks: Seq<Self>)
        requires
            before.consistent(),
            before.branches.len() < usize::MAX,
        ensures
            ({
                let after = Self::brought_up(before, first, blocks);
                let tip = after.branches.last();
                &&& after.consistent()
                &&& after.branches.len() == before.branches.len() + 1
                &&& tip.header == LoadFromStorage::<C, L, S>::last_of(
                    first.header,
                    Self::headers(blocks),
                )
                &&& after.refs.dom().contains(tip.header.hash)
                &&& after.refs[tip.header.hash] == tip
                &&& forall|h: HeaderHash| #[trigger]
                    after.refs.dom().contains(h) ==> before.refs.dom().contains(h) || h
                        == first.header.hash || exists|j: int|
                        0 <= j < blocks.len() && (#[trigger] blocks[j]).block.header.hash == h
            }),
        decreases blocks.len(),
    {
        if blocks.len() == 0 {
            LoadFromStorage::<C, L, S>::lemma_founded(before, first);
        } else {
            let rest = blocks.drop_last();
            Self::lemma_brought_up(before, first, rest);
            let earlier = Self::brought_up(before, first, rest);
            let parent = earlier.refs[blocks.last().block.header.parent_hash];
            let reference = blocks.last().reference(parent);
            let branch = Branch { index: before.branches.len() as usize };
            earlier.lemma_stored(reference);
            earlier.stored(reference).lemma_with_tip(branch, reference);
            let after = Self::brought_up(before, first, blocks);
            assert forall|h: HeaderHash| #[trigger]
                after.refs.dom().contains(h) implies before.refs.dom().contains(h) || h
                == first.header.hash || exists|j: int|
                0 <= j < blocks.len() && (#[trigger] blocks[j]).block.header.hash == h by {
                if h == reference.header.hash {
                    assert(blocks[blocks.len() - 1].block.header.hash == h);
                } else if !before.refs.dom().contains(h) && h != first.header.hash {
                    assert(earlier.refs.dom().contains(h));
                    let j = choose|j: int|
                        0 <= j < rest.len() && (#[trigger] rest[j]).block.header.hash == h;
                    assert(blocks[j] == rest[j]);
                }
            }
        }
    }

    /// What is told of a block that may follow the last one makes the chain move on to it.
    proof fn lemma_taken(
        self,
        start: LoadFromStorage<C, L, S>,
        before: ChainView<L, S>,
        replies: Seq<Reply<C, L, S>>,
        chain: ChainView<L, S>,
        branch: Branch,
    )
        requires
            chain.consistent(),
            chain.follows(branch),
            chain.knows(chain.branches.last().header),
            chain.refs[chain.branches.last().header.hash] == chain.branches.last(),
            self.block.header.parent_hash == chain.branches.last().header.hash,
            self.block.header.extends(chain.branches.last().header),
            !chain.refs.dom().contains(self.block.header.hash),
            start.run_accepts(before, replies),
            start.run(before, replies) == (
                chain,
                Step::<LoadFromStorage<C, L, S>, Branch>::Pending(LoadFromStorage::Next { branch }),
            ),
        ensures
            ({
                let parent = chain.branches.last();
                let reference = self.reference(parent);
                let after = self.entering(parent.header, replies);
                &&& start.run_accepts(before, after)
                &&& start.run(before, after) == (
                    chain.stored(reference).with_tip(branch, reference),
                    Step::<LoadFromStorage<C, L, S>, Branch>::Pending(
                        LoadFromStorage::Next { branch },
                    ),
                )
                &&& LoadFromStorage::streamed(after) == LoadFromStorage::streamed(replies).push(
                    self.block.header,
                )
            }),
    {
        let header = self.block.header;
        let parent = chain.branches.last();
        let reference = self.reference(parent);
        assert(chain.backs(parent.header.hash, chain.refs[parent.header.hash]));
        let given = Reply::<C, L, S>::Block(Ok(Some(self.block)));
        let exists = Reply::<C, L, S>::Exists(Ok(true));
        let scheduled = Reply::<C, L, S>::Leadership(self.leadership);
        let verified = Reply::<C, L, S>::Verified(Verification::Success);
        let applied = Reply::<C, L, S>::Ledger(Ok(self.ledger));
        let candidate = Candidate {
            header,
            leadership_schedule: reference.leadership,
            parent_ledger_state: parent.ledger,
        };
        let verify = LoadFromStorage::<C, L, S>::Verify {
            branch,
            block: self.block,
            task: AwaitVerification { candidate },
        };
        let a = replies.push(given);
        let b = a.push(exists);
        start.lemma_push(before, replies, given);
        assert(start.run(before, a) == (
            chain,
            Step::<LoadFromStorage<C, L, S>, Branch>::Pending(
                LoadFromStorage::PreCheck {
                    branch,
                    block: self.block,
                    task: PreCheck::Own(header),
                },
            ),
        ));
        start.lemma_push(before, a, exists);
        let c = if parent.header.block_date.epoch < header.block_date.epoch {
            start.lemma_push(before, b, scheduled);
            b.push(scheduled)
        } else {
            b
        };
        assert(start.run_accepts(before, c));
        assert(start.run(before, c) == (
            chain,
            Step::<LoadFromStorage<C, L, S>, Branch>::Pending(verify),
        ));
        start.lemma_push(before, c, verified);
        start.lemma_push(before, c.push(verified), applied);
    }

    /// What is told makes a chain out of the blocks.
    proof fn lemma_told(
        before: ChainView<L, S>,
        block0: Block<C>,
        head: HeaderHash,
        ledger: L,
        leadership: S,
        blocks: Seq<Self>,
    )
        requires
            before.consistent(),
            before.branches.len() < usize::MAX,
            Self::lead_on(before, block0.header, blocks),
        ensures
            ({
                let start = LoadFromStorage::<C, L, S>::Exists { block0 };
                let replies = Self::told(block0.header, head, ledger, leadership, blocks);
                let first = Ref {
                    header: block0.header,
                    ledger: Arc::new(ledger),
                    leadership: Arc::new(leadership),
                };
                let branch = Branch { index: before.branches.len() as usize };
                &&& start.run_accepts(before, replies)
                &&& start.run(before, replies) == (
                    Self::brought_up(before, first, blocks),
                    Step::<LoadFromStorage<C, L, S>, Branch>::Pending(
                        LoadFromStorage::Next { branch },
                    ),
                )
                &&& LoadFromStorage::streamed(replies) == Self::headers(blocks)
            }),
        decreases blocks.len(),
    {
        let start = LoadFromStorage::<C, L, S>::Exists { block0 };
        let first = Ref {
            header: block0.header,
            ledger: Arc::new(ledger),
            leadership: Arc::new(leadership),
        };
        if blocks.len() == 0 {
            let a = Seq::<Reply<C, L, S>>::empty();
            let b = a.push(Reply::Exists(Ok(true)));
            let c = b.push(Reply::Tag(Ok(Some(head))));
            let d = c.push(Reply::Ledger(Ok(ledger)));
            let e = d.push(Reply::Leadership(leadership));
            let f = e.push(Reply::Stream(Ok(true)));
            start.lemma_push(before, a, Reply::Exists(Ok(true)));
            start.lemma_push(before, b, Reply::Tag(Ok(Some(head))));
            start.lemma_push(before, c, Reply::Ledger(Ok(ledger)));
            start.lemma_push(before, d, Reply::Leadership(leadership));
            start.lemma_push(before, e, Reply::Stream(Ok(true)));
            assert(f =~= Self::told(block0.header, head, ledger, leadership, blocks));
            assert(Self::headers(blocks) =~= Seq::empty());
        } else {
            let rest = blocks.drop_last();
            let next = blocks.last();
            let header = next.block.header;
            Self::lemma_lead_on(before, block0.header, blocks);
            Self::lemma_told(before, block0, head, ledger, leadership, rest);
            Self::lemma_brought_up(before, first, rest);
            let chain = Self::brought_up(before, first, rest);
            assert(Self::continues(before, block0.header, blocks, blocks.len() - 1));
            assert(!chain.refs.dom().contains(header.hash)) by {
                if chain.refs.dom().contains(header.hash) {
                    let j = choose|j: int|
                        0 <= j < rest.len() && (#[trigger] rest[j]).block.header.hash
                            == header.hash;
                    assert(blocks[j] == rest[j]);
                }
            }
            let branch = Branch { index: before.branches.len() as usize };
            let earlier = Self::told(block0.header, head, ledger, leadership, rest);
            next.lemma_taken(start, before, earlier, chain, branch);
            assert(Self::headers(blocks) =~= Self::headers(rest).push(header));
        }
    }
}

impl<C, L, S> LoadFromStorage<C, L, S> {
    /// What one more reply adds.
    proof fn lemma_push(
        self,
        chain: ChainView<L, S>,
        replies: Seq<Reply<C, L, S>>,
        reply: Reply<C, L, S>,
    )
        ensures
            self.run(chain, replies.push(reply)) == match self.run(chain, replies) {
                (chain, Step::Pending(task)) => task.step(chain, reply),
                done => done,
            },
            self.run_accepts(chain, replies.push(reply)) <==> self.run_accepts(chain, replies)
                && match self.run(chain, replies) {
                (chain, Step::Pending(task)) => task.accepts_spec(chain, reply),
                (_, Step::Done(_)) => false,
            },
            Self::streamed(replies.push(reply)) == match reply {
                Reply::Block(Ok(Some(block))) => Self::streamed(replies).push(block.header),
                _ => Self::streamed(replies),
            },
    {
        assert(replies.push(reply).drop_last() =~= replies);
    }
}

/// A chain that the storage has is loaded. If the storage has the first block, the main
/// branch is tagged, the blocks that the storage gives lead on from the first, none of
/// them is at hand yet, each fits its schedule and the ledger takes each, then loading
/// goes on after every reply and succeeds. The chain then has all the blocks with their
/// states, and a new fork that ends in the last of them.
pub proof fn law_stored_chain_is_loaded<C, L, S>(
    before: ChainView<L, S>,
    block0: Block<C>,
    head: HeaderHash,
    ledger: L,
    leadership: S,
    blocks: Seq<StoredBlock<C, L, S>>,
)
    requires
        before.consistent(),
        before.branches.len() < usize::MAX,
        StoredBlock::lead_on(before, block0.header, blocks),
    ensures
        ({
            let start = LoadFromStorage::<C, L, S>::Exists { block0 };
            let replies = StoredBlock::told(
                block0.header,
                head,
                ledger,
                leadership,
                blocks,
            ).push(Reply::Block(Ok(None)));
            let first = Ref {
                header: block0.header,
                ledger: Arc::new(ledger),
                leadership: Arc::new(leadership),
            };
            let branch = Branch { index: before.branches.len() as usize };
            let (after, step) = start.run(before, replies);
            &&& start.run_accepts(before, replies)
            &&& step == Step::<LoadFromStorage<C, L, S>, Branch>::Done(Ok(branch))
            &&& after == StoredBlock::brought_up(before, first, blocks)
            &&& LoadFromStorage::<C, L, S>::grown(
                before,
                after,
                branch,
                block0.header,
                StoredBlock::headers(blocks),
            )
        }),
{
    let start = LoadFromStorage::<C, L, S>::Exists { block0 };
    let told = StoredBlock::told(block0.header, head, ledger, leadership, blocks);
    StoredBlock::lemma_told(before, block0, head, ledger, leadership, blocks);
    start.lemma_push(before, told, Reply::Block(Ok(None)));
    LoadFromStorage::lemma_progress(before, block0, told.push(Reply::Block(Ok(None))));
}

impl<C, L, S> LoadFromStorage<C, L, S> {
    /// The block that the storage gave last is on its way, and all before it were taken.
    spec fn on_its_way(
        before: ChainView<L, S>,
        block0: Header,
        replies: Seq<Reply<C, L, S>>,
        after: ChainView<L, S>,
    ) -> bool {
        &&& replies.len() > 5
        &&& after == Self::reached(before, block0, replies)
        &&& StoredBlock::headers(Self::taken(replies)) == Self::streamed(replies).drop_last()
        &&& Self::given(replies) is Some
    }

    /// The schedule that the block on its way gets, once it is made.
    spec fn own_schedule(replies: Seq<Reply<C, L, S>>, after: ChainView<L, S>) -> Arc<S> {
        let block = Self::given(replies)->0;
        let parent = after.refs[block.header.parent_hash];
        if parent.header.block_date.epoch < block.header.block_date.epoch {
            Arc::new(Self::scheduled(replies))
        } else {
            parent.leadership
        }
    }

    /// Where the chain stands, by what was told.
    spec fn standing(
        before: ChainView<L, S>,
        block0: Block<C>,
        replies: Seq<Reply<C, L, S>>,
        after: ChainView<L, S>,
        step: Step<Self, Branch>,
    ) -> bool {
        let nothing_given = Self::given(replies) is None && Self::taken(replies).len() == 0;
        let all_taken = after == Self::reached(before, block0.header, replies)
            && StoredBlock::headers(Self::taken(replies)) == Self::streamed(replies);
        match step {
            Step::Done(Err(_)) => true,
            Step::Done(Ok(_)) => all_taken,
            Step::Pending(task) => match task {
                LoadFromStorage::Exists { .. } => replies.len() == 0 && nothing_given,
                LoadFromStorage::Tag { .. } => replies.len() == 1 && nothing_given,
                LoadFromStorage::Ledger { .. } => replies.len() == 2 && nothing_given,
                LoadFromStorage::Leadership { head: _, task } => replies.len() == 3
                    && nothing_given && task.ledger == Arc::new(replies[2]->Ledger_0->Ok_0),
                LoadFromStorage::Stream { .. } => replies.len() == 4 && nothing_given
                    && all_taken,
                LoadFromStorage::Next { .. } => replies.len() > 4 && all_taken,
                LoadFromStorage::PreCheck { branch: _, block, task: _ } => Self::on_its_way(
                    before,
                    block0.header,
                    replies,
                    after,
                ) && Self::given(replies)->0 == block,
                LoadFromStorage::Schedule { branch: _, block, task: _ } => Self::on_its_way(
                    before,
                    block0.header,
                    replies,
                    after,
                ) && Self::given(replies)->0 == block,
                LoadFromStorage::Verify { branch: _, block, task } => Self::on_its_way(
                    before,
                    block0.header,
                    replies,
                    after,
                ) && Self::given(replies)->0 == block && task.candidate.leadership_schedule
                    == Self::own_schedule(replies, after),
                LoadFromStorage::Apply { branch: _, task } => Self::on_its_way(
                    before,
                    block0.header,
                    replies,
                    after,
                ) && Self::given(replies)->0.header == task.candidate.header
                    && task.candidate.leadership_schedule == Self::own_schedule(replies, after),
            },
        }
    }

    proof fn lemma_standing(
        before: ChainView<L, S>,
        block0: Block<C>,
        replies: Seq<Reply<C, L, S>>,
    )
        requires
            before.consistent(),
            before.branches.len() < usize::MAX,
            (LoadFromStorage::Exists { block0 }).run_accepts(before, replies),
        ensures
            ({
                let (after, step) = (LoadFromStorage::Exists { block0 }).run(before, replies);
                Self::standing(before, block0, replies, after, step)
            }),
        decreases replies.len(),
    {
        let start = LoadFromStorage::Exists { block0 };
        if replies.len() > 0 {
            let earlier = replies.drop_last();
            let reply = replies.last();
            Self::lemma_standing(before, block0, earlier);
            Self::lemma_progress(before, block0, earlier);
            let (chain, step) = start.run(before, earlier);
            let task = step->Pending_0;
            if earlier.len() >= 4 {
                assert(earlier[2] == replies[2] && earlier[3] == replies[3]);
            }
            match (task, reply) {
                (LoadFromStorage::Ledger { head: _, task }, Reply::Ledger(_)) => {
                    assert(replies[2] == reply);
                },
                (LoadFromStorage::Leadership { head: _, task }, Reply::Leadership(_)) => {
                    assert(earlier[2] == replies[2] && replies[3] == reply);
                    assert(StoredBlock::headers(Self::taken(replies)) =~= Self::streamed(replies));
                    assert(Self::taken(replies) =~= Seq::empty());
                },
                (LoadFromStorage::Next { branch }, Reply::Block(Ok(Some(block)))) => {
                    assert(Self::streamed(replies).drop_last() =~= Self::streamed(earlier));
                },
                (LoadFromStorage::PreCheck { branch, block, task }, Reply::Exists(_)) => {
                    let parent_hash = block.header.parent_hash;
                    if chain.refs.dom().contains(parent_hash) {
                        assert(chain.backs(parent_hash, chain.refs[parent_hash]));
                    }
                },
                (LoadFromStorage::Apply { branch, task }, Reply::Ledger(Ok(ledger))) => {
                    let taken = Self::taken(earlier);
                    assert(Self::taken(replies).drop_last() =~= taken);
                    assert(StoredBlock::headers(Self::taken(replies)) =~= StoredBlock::headers(
                        taken,
                    ).push(task.candidate.header));
                    assert(Self::streamed(earlier) =~= Self::streamed(earlier).drop_last().push(
                        task.candidate.header,
                    ));
                },
                _ => {},
            }
        }
    }

    /// The third reply is the ledger of the first block, if loading has come that far.
    proof fn lemma_first_ledger(
        before: ChainView<L, S>,
        block0: Block<C>,
        replies: Seq<Reply<C, L, S>>,
    )
        requires
            before.consistent(),
            before.branches.len() < usize::MAX,
            (LoadFromStorage::Exists { block0 }).run_accepts(before, replies),
            (LoadFromStorage::Exists { block0 }).run(before, replies).1 is Pending,
            replies.len() > 2,
        ensures
            replies[2] is Ledger,
            replies[2]->Ledger_0 is Ok,
        decreases replies.len(),
    {
        let earlier = replies.drop_last();
        Self::lemma_standing(before, block0, earlier);
        if earlier.len() > 2 {
            Self::lemma_first_ledger(before, block0, earlier);
            assert(earlier[2] == replies[2]);
        } else {
            assert(replies[2] == replies.last());
        }
    }
}

/// Loading a chain from the storage, if it succeeds, propagates the states from the
/// first block to the last that the storage gave. There is a new fork that ends in the
/// last block, or in the first if the storage gave none. All blocks on the way are at
/// hand with the ledgers that the replies gave. Each of them is later than its parent and
/// one further along the chain. Within an epoch it has the schedule of its parent, and at
/// the beginning of one the schedule that was made then. The other forks are untouched.
/// Whatever comes of it, the chain is consistent, no block that had states is without, and
/// blocks that the storage did not give are as they were.
pub proof fn law_loading_propagates_states<C, L, S>(
    before: ChainView<L, S>,
    block0: Block<C>,
    replies: Seq<Reply<C, L, S>>,
)
    requires
        before.consistent(),
        before.branches.len() < usize::MAX,
        (LoadFromStorage::Exists { block0 }).run_accepts(before, replies),
    ensures
        ({
            let (after, step) = (LoadFromStorage::Exists { block0 }).run(before, replies);
            let headers = LoadFromStorage::streamed(replies);
            &&& after.consistent()
            &&& before.kept_by(
                after,
                LoadFromStorage::<C, L, S>::hashes(block0.header, headers),
            )
            &&& step matches Step::Done(Ok(branch)) ==> {
                &&& LoadFromStorage::<C, L, S>::grown(
                    before,
                    after,
                    branch,
                    block0.header,
                    headers,
                )
                &&& StoredBlock::headers(LoadFromStorage::taken(replies)) == headers
                &&& after == LoadFromStorage::reached(before, block0.header, replies)
            }
        }),
{
    LoadFromStorage::lemma_progress(before, block0, replies);
    LoadFromStorage::lemma_standing(before, block0, replies);
}

/// Loading a chain from the storage succeeds exactly when the storage has no more blocks
/// to give.
pub proof fn law_loading_ends_with_the_last_block<C, L, S>(
    before: ChainView<L, S>,
    block0: Block<C>,
    replies: Seq<Reply<C, L, S>>,
)
    requires
        replies.len() > 0,
        (LoadFromStorage::Exists { block0 }).run_accepts(before, replies),
    ensures
        ({
            let step = (LoadFromStorage::Exists { block0 }).run(before, replies).1;
            step is Done && step->Done_0 is Ok <==> replies.last() == Reply::<C, L, S>::Block(
                Ok(None),
            )
        }),
{
}

/// Loading a chain from the storage, if it succeeds, gives a fork that points to the
/// block with the main branch's tag, provided that the last block that the storage
/// gave is that block (or that it gave none, and that block is the first).
pub proof fn law_loading_reaches_the_head<C, L, S>(
    before: ChainView<L, S>,
    block0: Block<C>,
    replies: Seq<Reply<C, L, S>>,
    branch: Branch,
    head: HeaderHash,
)
    requires
        before.consistent(),
        before.branches.len() < usize::MAX,
        (LoadFromStorage::Exists { block0 }).run_accepts(before, replies),
        (LoadFromStorage::Exists { block0 }).run(before, replies).1 == Step::<
            LoadFromStorage<C, L, S>,
            Branch,
        >::Done(Ok(branch)),
        replies[1] == Reply::<C, L, S>::Tag(Ok(Some(head))),
        LoadFromStorage::<C, L, S>::last_of(
            block0.header,
            LoadFromStorage::streamed(replies),
        ).hash == head,
    ensures
        ({
            let after = (LoadFromStorage::Exists { block0 }).run(before, replies).0;
            &&& after.follows(branch)
            &&& after.branches[branch.index as int].header.hash == head
        }),
{
    LoadFromStorage::lemma_progress(before, block0, replies);
}

/// The blocks that the storage is asked for are those between the first block and the
/// tagged one, after the first block has been applied.
pub proof fn law_loading_asks_for_the_way_to_the_head<C, L, S>(
    before: ChainView<L, S>,
    block0: Block<C>,
    head: HeaderHash,
    ledger: L,
    leadership: S,
)
    ensures
        ({
            let replies = seq![
                Reply::Exists(Ok(true)),
                Reply::Tag(Ok(Some(head))),
                Reply::Ledger(Ok(ledger)),
                Reply::Leadership(leadership),
            ];
            let (after, step) = (LoadFromStorage::Exists { block0 }).run(before, replies);
            &&& after == before.founded(
                Ref {
                    header: block0.header,
                    ledger: Arc::new(ledger),
                    leadership: Arc::new(leadership),
                },
            )
            &&& step is Pending
            &&& step->Pending_0.wanted() == Request::<C, L, S>::StreamFromTo {
                from: block0.header.hash,
                to: head,
            }
        }),
{
    reveal_with_fuel(LoadFromStorage::run, 5);
    let replies = seq![
        Reply::<C, L, S>::Exists(Ok(true)),
        Reply::Tag(Ok(Some(head))),
        Reply::Ledger(Ok(ledger)),
        Reply::Leadership(leadership),
    ];
    assert(replies.drop_last().last() == Reply::<C, L, S>::Ledger(Ok(ledger)));
    assert(replies.drop_last().drop_last().last() == Reply::<C, L, S>::Tag(Ok(Some(head))));
    assert(replies.drop_last().drop_last().drop_last().last() == Reply::<C, L, S>::Exists(
        Ok(true),
    ));
    assert(replies.drop_last().drop_last().drop_last().drop_last().len() == 0);
}

/// Loading a first block succeeds if the storage does not have it, its contents
/// describe a ledger, and it can be stored and tagged. Then the chain has the block
/// with its states and follows the fork that it begins.
pub proof fn law_first_block_is_loaded<C, L, S>(
    before: ChainView<L, S>,
    block0: Block<C>,
    ledger: L,
    leadership: S,
)
    requires
        before.consistent(),
        before.branches.len() < usize::MAX,
    ensures
        ({
            let replies = seq![
                Reply::Exists(Ok(false)),
                Reply::Ledger(Ok(ledger)),
                Reply::Leadership(leadership),
                Reply::Stored(Ok(())),
                Reply::Stored(Ok(())),
            ];
            let start = LoadFromBlock0::<C, L>::Exists { block0 };
            let reference = Ref {
                header: block0.header,
                ledger: Arc::new(ledger),
                leadership: Arc::new(leadership),
            };
            let (after, step) = start.run(before, replies);
            let branch = Branch { index: before.branches.len() as usize };
            &&& after == before.founded(reference)
            &&& after.consistent()
            &&& step == Step::<LoadFromBlock0<C, L>, Branch>::Done(Ok(branch))
            &&& after.follows(branch)
            &&& after.branches[branch.index as int] == reference
            &&& start.run(before, replies.take(3)).1 is Pending
            &&& start.run(before, replies.take(3)).1->Pending_0.wanted::<S>()
                == Request::<C, L, S>::PutBlock(block0)
            &&& start.run(before, replies.take(4)).1 is Pending
            &&& start.run(before, replies.take(4)).1->Pending_0.wanted::<S>()
                == Request::<C, L, S>::PutTag(MAIN_BRANCH_TAG, block0.header.hash)
        }),
{
    reveal_with_fuel(LoadFromBlock0::run, 6);
    let replies = seq![
        Reply::<C, L, S>::Exists(Ok(false)),
        Reply::Ledger(Ok(ledger)),
        Reply::Leadership(leadership),
        Reply::Stored(Ok(())),
        Reply::Stored(Ok(())),
    ];
    assert(replies.drop_last() =~= replies.take(4));
    assert(replies.take(4).drop_last() =~= replies.take(3));
    assert(replies.take(3).drop_last() =~= replies.take(2));
    assert(replies.take(2).drop_last() =~= replies.take(1));
    assert(replies.take(1).drop_last() =~= replies.take(0));
    let reference = Ref {
        header: block0.header,
        ledger: Arc::new(ledger),
        leadership: Arc::new(leadership),
    };
    LoadFromStorage::<C, L, S>::lemma_founded(before, reference);
}

/// Loading a first block succeeds only after five replies that all let it go on: the
/// storage does not have the block, there is a ledger, there is a schedule, the block is
/// stored and the block is tagged. Any other reply makes it fail.
pub proof fn law_first_block_is_loaded_in_five_stages<C, L, S>(
    before: ChainView<L, S>,
    block0: Block<C>,
    replies: Seq<Reply<C, L, S>>,
)
    requires
        replies.len() > 0,
        (LoadFromBlock0::<C, L>::Exists { block0 }).run_accepts(before, replies),
    ensures
        ({
            let step = (LoadFromBlock0::<C, L>::Exists { block0 }).run(before, replies).1;
            let goes_on = LoadFromBlock0::<C, L>::favours(replies.len() - 1, replies.last());
            &&& step is Done && step->Done_0 is Err <==> !goes_on
            &&& step is Done && step->Done_0 is Ok <==> goes_on && replies.len() == 5
            &&& forall|i: int|
                0 <= i < replies.len() - 1 ==> LoadFromBlock0::<C, L>::favours(
                    i,
                    #[trigger] replies[i],
                )
        }),
{
    let earlier = replies.drop_last();
    LoadFromBlock0::<C, L>::lemma_stages(before, block0, replies);
    LoadFromBlock0::<C, L>::lemma_stages(before, block0, earlier);
    assert forall|i: int| 0 <= i < replies.len() - 1 implies LoadFromBlock0::<C, L>::favours(
        i,
        #[trigger] replies[i],
    ) by {
        assert(earlier[i] == replies[i]);
    }
}

/// A failure outside ends the loading of a chain, and what came of it until then stays:
/// the reply that told of the failure is the last one, and the chain is what it was
/// before that reply.
pub proof fn law_failure_ends_loading<C, L, S>(
    before: ChainView<L, S>,
    block0: Block<C>,
    replies: Seq<Reply<C, L, S>>,
    i: int,
)
    requires
        (LoadFromStorage::Exists { block0 }).run_accepts(before, replies),
        0 <= i < replies.len(),
        replies[i].failed(),
    ensures
        ({
            let start = LoadFromStorage::Exists { block0 };
            let (after, step) = start.run(before, replies);
            &&& i == replies.len() - 1
            &&& step is Done && step->Done_0 is Err
            &&& after == start.run(before, replies.drop_last()).0
        }),
    decreases replies.len(),
{
    let earlier = replies.drop_last();
    if i < replies.len() - 1 {
        assert(earlier[i] == replies[i]);
        law_failure_ends_loading(before, block0, earlier, i);
    }
}

/// While a chain is loaded, it is at every moment the chain of the beginning with the
/// first block, once that is recorded, and with the blocks that the ledger took since,
/// each with the ledger that it was given and with its schedule. A block on top of the
/// one that was taken last is applied to the very ledger that the taking of that one gave,
/// and a block on top of the first one to the ledger of the first.
pub proof fn law_ledgers_are_handed_on<C, L, S>(
    before: ChainView<L, S>,
    block0: Block<C>,
    replies: Seq<Reply<C, L, S>>,
)
    requires
        before.consistent(),
        before.branches.len() < usize::MAX,
        (LoadFromStorage::Exists { block0 }).run_accepts(before, replies),
        (LoadFromStorage::Exists { block0 }).run(before, replies).1 is Pending,
    ensures
        ({
            let (chain, step) = (LoadFromStorage::Exists { block0 }).run(before, replies);
            let taken = LoadFromStorage::taken(replies);
            let asked = step->Pending_0.wanted();
            &&& replies.len() < 4 ==> chain == before
            &&& replies.len() >= 4 ==> chain == LoadFromStorage::reached(
                before,
                block0.header,
                replies,
            )
            &&& asked matches Request::ApplyLedger { ledger, leadership: _, header, body: _ } ==> {
                &&& taken.len() > 0 && header.parent_hash == taken.last().block.header.hash
                    ==> ledger == Arc::new(taken.last().ledger)
                &&& taken.len() == 0 && header.parent_hash == block0.header.hash ==> (
                replies[2] matches Reply::Ledger(Ok(first)) && ledger == Arc::new(first))
            }
        }),
{
    LoadFromStorage::lemma_progress(before, block0, replies);
    LoadFromStorage::lemma_standing(before, block0, replies);
    let (chain, step) = (LoadFromStorage::Exists { block0 }).run(before, replies);
    if let LoadFromStorage::Apply { branch: _, task } = step->Pending_0 {
        super::request_laws::law_block_is_applied_to_the_ledger_of_its_parent(
            before,
            block0,
            replies,
            task.candidate.parent_ledger_state,
            task.candidate.leadership_schedule,
            task.candidate.header,
            task.body,
        );
        LoadFromStorage::lemma_first_ledger(before, block0, replies);
    }
}

/// When the loading of a chain ends in an error, of whatever kind, the chain is what it was
/// before the last reply. Before the first block is recorded that is the chain of the
/// beginning. After that, it is the chain with the first block and those that the ledger
/// took, and the new fork ends in the last of them. These are all the blocks that the
/// storage gave, or all but the last if that one was on its way, and then it is not at
/// hand.
pub proof fn law_loading_that_ends_in_an_error_stays<C, L, S>(
    before: ChainView<L, S>,
    block0: Block<C>,
    replies: Seq<Reply<C, L, S>>,
)
    requires
        before.consistent(),
        before.branches.len() < usize::MAX,
        (LoadFromStorage::Exists { block0 }).run_accepts(before, replies),
        (LoadFromStorage::Exists { block0 }).run(before, replies).1 is Done,
        (LoadFromStorage::Exists { block0 }).run(before, replies).1->Done_0 is Err,
    ensures
        ({
            let start = LoadFromStorage::<C, L, S>::Exists { block0 };
            let after = start.run(before, replies).0;
            let streamed = LoadFromStorage::streamed(replies);
            let taken = StoredBlock::headers(LoadFromStorage::taken(replies));
            let branch = Branch { index: before.branches.len() as usize };
            &&& after == start.run(before, replies.drop_last()).0
            &&& replies.len() <= 4 ==> after == before
            &&& replies.len() > 4 ==> {
                &&& after == LoadFromStorage::reached(before, block0.header, replies)
                &&& LoadFromStorage::<C, L, S>::grown(
                    before,
                    after,
                    branch,
                    block0.header,
                    taken,
                )
                &&& after.branches.last().header == LoadFromStorage::<C, L, S>::last_of(
                    block0.header,
                    taken,
                )
                &&& if replies.last() is Stream || replies.last() is Block {
                    taken == streamed
                } else {
                    &&& streamed.len() > 0
                    &&& taken == streamed.drop_last()
                    &&& !after.refs.dom().contains(streamed.last().hash)
                }
            }
        }),
{
    let earlier = replies.drop_last();
    LoadFromStorage::lemma_progress(before, block0, earlier);
    LoadFromStorage::lemma_standing(before, block0, earlier);
    if replies.len() > 4 {
        assert(earlier[2] == replies[2] && earlier[3] == replies[3]);
    }
}

/// When the loading of a first block ends in an error, the chain is what it was before the
/// last reply. Before the block is recorded that is the chain of the beginning. After
/// that, when the block cannot be stored or tagged, it is the chain with the block and the
/// fork that it begins.
pub proof fn law_first_block_that_ends_in_an_error_stays<C, L, S>(
    before: ChainView<L, S>,
    block0: Block<C>,
    replies: Seq<Reply<C, L, S>>,
)
    requires
        (LoadFromBlock0::<C, L>::Exists { block0 }).run_accepts(before, replies),
        (LoadFromBlock0::<C, L>::Exists { block0 }).run(before, replies).1 is Done,
        (LoadFromBlock0::<C, L>::Exists { block0 }).run(before, replies).1->Done_0 is Err,
    ensures
        ({
            let start = LoadFromBlock0::<C, L>::Exists { block0 };
            let after = start.run(before, replies).0;
            &&& after == start.run(before, replies.drop_last()).0
            &&& replies.len() <= 3 ==> after == before
            &&& replies.len() > 3 ==> after == before.founded(
                Ref {
                    header: block0.header,
                    ledger: Arc::new(replies[1]->Ledger_0->Ok_0),
                    leadership: Arc::new(replies[2]->Leadership_0),
                },
            )
        }),
{
    LoadFromBlock0::<C, L>::lemma_first_block(before, block0, replies);
}

/// A chain that was brought up from its first block can be brought up again from the
/// storage: with the tag that loading the first block gave, and no further blocks, a
/// new chain gets to know the same and follows the same fork.
pub proof fn law_first_block_is_loaded_again<C, L, S>(
    before: ChainView<L, S>,
    block0: Block<C>,
    ledger: L,
    leadership: S,
)
    ensures
        ({
            let first = LoadFromBlock0::<C, L>::Exists { block0 }.run(
                before,
                seq![
                    Reply::Exists(Ok(false)),
                    Reply::Ledger(Ok(ledger)),
                    Reply::Leadership(leadership),
                    Reply::Stored(Ok(())),
                    Reply::Stored(Ok(())),
                ],
            );
            let again = (LoadFromStorage::Exists { block0 }).run(
                before,
                seq![
                    Reply::Exists(Ok(true)),
                    Reply::Tag(Ok(Some(block0.header.hash))),
                    Reply::Ledger(Ok(ledger)),
                    Reply::Leadership(leadership),
                    Reply::Stream(Ok(true)),
                    Reply::Block(Ok(None)),
                ],
            );
            &&& first.0 == again.0
            &&& first.1 is Done && again.1 is Done
            &&& first.1->Done_0 == again.1->Done_0
            &&& first.1->Done_0 is Ok
        }),
{
    reveal_with_fuel(LoadFromBlock0::run, 6);
    reveal_with_fuel(LoadFromStorage::run, 7);
    let one = seq![
        Reply::<C, L, S>::Exists(Ok(false)),
        Reply::Ledger(Ok(ledger)),
        Reply::Leadership(leadership),
        Reply::Stored(Ok(())),
        Reply::Stored(Ok(())),
    ];
    assert(one.drop_last() =~= one.take(4));
    assert(one.take(4).drop_last() =~= one.take(3));
    assert(one.take(3).drop_last() =~= one.take(2));
    assert(one.take(2).drop_last() =~= one.take(1));
    assert(one.take(1).drop_last() =~= one.take(0));
    let two = seq![
        Reply::<C, L, S>::Exists(Ok(true)),
        Reply::Tag(Ok(Some(block0.header.hash))),
        Reply::Ledger(Ok(ledger)),
        Reply::Leadership(leadership),
        Reply::Stream(Ok(true)),
        Reply::Block(Ok(None)),
    ];
    assert(two.drop_last() =~= two.take(5));
    assert(two.take(5).drop_last() =~= two.take(4));
    assert(two.take(4).drop_last() =~= two.take(3));
    assert(two.take(3).drop_last() =~= two.take(2));
    assert(two.take(2).drop_last() =~= two.take(1));
    assert(two.take(1).drop_last() =~= two.take(0));
}

} // verus!
