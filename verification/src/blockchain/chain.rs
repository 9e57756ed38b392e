//! The chain and the steps by which a block joins it.

use super::branch::{Branch, Branches};
use super::error::{Error, ErrorKind};
use super::multiverse::{Multiverse, State};
use super::reference::Ref;
use super::reference_cache::RefCache;
use crate::block::{Block, Header, HeaderHash};
use std::sync::Arc;
use std::time::Duration;
use vstd::prelude::*;

verus! {

/// How far an operation has got: it waits for an answer from outside, or it is over.
#[derive(Debug)]
pub enum Step<T, R> {
    /// The operation waits for the answer that `T` describes.
    Pending(T),
    /// The operation is over.
    Done(Result<R, Error>),
}

/// What a chain knows: the states of its stores.
pub struct ChainView<L, S> {
    /// The references at hand.
    pub refs: Map<HeaderHash, Ref<L, S>>,
    /// The ledger state after each known block.
    pub ledgers: Map<HeaderHash, State<L>>,
    /// The leadership schedule of each known block.
    pub leaderships: Map<HeaderHash, State<S>>,
    /// The last block of each fork that is followed.
    pub branches: Seq<Ref<L, S>>,
}

impl<L, S> ChainView<L, S> {
    /// What holds of every chain: a reference is found under the identifier of its
    /// block, and the block's ledger state and leadership schedule are the ones that
    /// the reference has; a block has either both states or none; and the last block
    /// of a fork has both.
    pub open spec fn consistent(self) -> bool {
        &&& forall|h: HeaderHash| #[trigger]
            self.refs.dom().contains(h) ==> self.backs(h, self.refs[h])
        &&& self.ledgers.dom() == self.leaderships.dom()
        &&& forall|i: int|
            0 <= i < self.branches.len() ==> self.ledgers.dom().contains(
                (#[trigger] self.branches[i]).header.hash,
            )
    }

    /// The reference is one to the block `h`, and has the states recorded for `h`.
    pub open spec fn backs(self, h: HeaderHash, reference: Ref<L, S>) -> bool {
        let chain_length = reference.header.chain_length;
        &&& reference.header.hash == h
        &&& self.ledgers.dom().contains(h)
        &&& self.ledgers[h] == State { chain_length, value: reference.ledger }
        &&& self.leaderships.dom().contains(h)
        &&& self.leaderships[h] == State { chain_length, value: reference.leadership }
    }

    /// The chain after a block was recorded with the states it leads to.
    pub open spec fn stored(self, reference: Ref<L, S>) -> Self {
        let h = reference.header.hash;
        let chain_length = reference.header.chain_length;
        ChainView {
            refs: self.refs.insert(h, reference),
            ledgers: self.ledgers.insert(h, State { chain_length, value: reference.ledger }),
            leaderships: self.leaderships.insert(
                h,
                State { chain_length, value: reference.leadership },
            ),
            branches: self.branches,
        }
    }

    /// Recording a block keeps a chain consistent.
    pub proof fn lemma_stored(self, reference: Ref<L, S>)
        requires
            self.consistent(),
        ensures
            self.stored(reference).consistent(),
    {
        let after = self.stored(reference);
        assert(after.ledgers.dom() =~= after.leaderships.dom());
        assert forall|h: HeaderHash| #[trigger] after.refs.dom().contains(h) implies after.backs(
            h,
            after.refs[h],
        ) by {
            if h != reference.header.hash {
                assert(self.refs.dom().contains(h));
            }
        }
    }

    /// Letting go of a reference keeps a chain consistent.
    pub proof fn lemma_expired(self, header_hash: HeaderHash)
        requires
            self.consistent(),
        ensures
            self.expired(header_hash).consistent(),
    {
        let after = self.expired(header_hash);
        assert forall|h: HeaderHash| #[trigger] after.refs.dom().contains(h) implies after.backs(
            h,
            after.refs[h],
        ) by {
            assert(self.refs.dom().contains(h));
        }
    }

    /// The chain after it let go of a reference.
    pub open spec fn expired(self, header_hash: HeaderHash) -> Self {
        ChainView { refs: self.refs.remove(header_hash), ..self }
    }

    /// The chain after it began to follow a fork that ends in `tip`.
    pub open spec fn with_branch(self, tip: Ref<L, S>) -> Self {
        ChainView { branches: self.branches.push(tip), ..self }
    }

    /// The chain after the fork `branch` moved on to `tip`.
    pub open spec fn with_tip(self, branch: Branch, tip: Ref<L, S>) -> Self {
        ChainView { branches: self.branches.update(branch.index as int, tip), ..self }
    }

    /// Moving a fork on keeps a chain consistent.
    pub proof fn lemma_with_tip(self, branch: Branch, tip: Ref<L, S>)
        requires
            self.consistent(),
            self.follows(branch),
            self.ledgers.dom().contains(tip.header.hash),
        ensures
            self.with_tip(branch, tip).consistent(),
    {
        let after = self.with_tip(branch, tip);
        assert forall|h: HeaderHash| #[trigger] after.refs.dom().contains(h) implies after.backs(
            h,
            after.refs[h],
        ) by {
            assert(self.backs(h, self.refs[h]));
        }
        assert forall|i: int| 0 <= i < after.branches.len() implies after.ledgers.dom().contains(
            (#[trigger] after.branches[i]).header.hash,
        ) by {
            if i != branch.index {
                assert(after.branches[i] == self.branches[i]);
            }
        }
    }

    /// The fork is one of those that the chain follows.
    pub open spec fn follows(self, branch: Branch) -> bool {
        branch.index < self.branches.len()
    }

    /// How the search for the reference to a block begins: with the references at
    /// hand, and only if it is not among them with the storage.
    pub open spec fn lookup(self, header_hash: HeaderHash) -> Step<GetRef, Option<Ref<L, S>>> {
        if self.refs.dom().contains(header_hash) {
            Step::Done(Ok(Some(self.refs[header_hash])))
        } else {
            Step::Pending(GetRef { header_hash })
        }
    }

    /// How the search for the parent of a header begins: with the reference to the block
    /// of the header itself.
    pub open spec fn load_own(self, header: Header) -> Step<PreCheck, PreCheckedHeader<L, S>> {
        if self.refs.dom().contains(header.hash) {
            Step::Done(
                Ok(
                    PreCheckedHeader::AlreadyPresent {
                        header,
                        cached_reference: Some(self.refs[header.hash]),
                    },
                ),
            )
        } else {
            Step::Pending(PreCheck::Own(header))
        }
    }

    /// How the search for the parent of a header goes on with the reference to the
    /// parent.
    pub open spec fn load_parent(self, header: Header) -> Step<PreCheck, PreCheckedHeader<L, S>> {
        if self.refs.dom().contains(header.parent_hash) {
            Step::Done(
                Ok(
                    PreCheckedHeader::HeaderWithCache {
                        header,
                        parent_ref: self.refs[header.parent_hash],
                    },
                ),
            )
        } else {
            Step::Pending(PreCheck::Parent(header))
        }
    }

    /// How the search for the parent of a header goes on after the storage's answer.
    pub open spec fn load_resumed(
        self,
        task: PreCheck,
        block_exists: Result<bool, String>,
    ) -> Step<PreCheck, PreCheckedHeader<L, S>> {
        match (task, block_exists) {
            (_, Err(cause)) => Step::Done(Err(GetRef::lookup_failure(cause))),
            (PreCheck::Own(header), Ok(true)) => Step::Done(
                Ok(PreCheckedHeader::AlreadyPresent { header, cached_reference: None }),
            ),
            (PreCheck::Own(header), Ok(false)) => self.load_parent(header),
            (PreCheck::Parent(header), Ok(false)) => Step::Done(
                Ok(PreCheckedHeader::MissingParent { header }),
            ),
            (PreCheck::Parent(_), Ok(true)) => arbitrary(),
        }
    }

    /// What the rule of succession makes of where the search for the parent stands: a
    /// header whose parent was found has to keep the rule, and nothing else is affected.
    pub open spec fn judged(step: Step<PreCheck, PreCheckedHeader<L, S>>) -> Step<
        PreCheck,
        PreCheckedHeader<L, S>,
    > {
        match step {
            Step::Done(Ok(PreCheckedHeader::HeaderWithCache { header, parent_ref })) => Step::Done(
                Self::succession(header, parent_ref),
            ),
            step => step,
        }
    }

    /// How the first check of a header begins.
    pub open spec fn check_own(self, header: Header) -> Step<PreCheck, PreCheckedHeader<L, S>> {
        Self::judged(self.load_own(header))
    }

    /// How the first check of a header goes on with its parent.
    pub open spec fn check_parent(self, header: Header) -> Step<PreCheck, PreCheckedHeader<L, S>> {
        Self::judged(self.load_parent(header))
    }

    /// How the first check of a header goes on after the storage's answer.
    pub open spec fn check_resumed(
        self,
        task: PreCheck,
        block_exists: Result<bool, String>,
    ) -> Step<PreCheck, PreCheckedHeader<L, S>> {
        Self::judged(self.load_resumed(task, block_exists))
    }

    /// How the second check of a header begins. Within an epoch the schedule of the
    /// parent judges the header. A header that begins an epoch needs a new schedule,
    /// made from the parent's ledger.
    pub open spec fn schedule(self, header: Header, parent: Header) -> PostCheck<L, S> {
        let parent_ledger_state = self.ledgers[parent.hash].value;
        if parent.block_date.epoch < header.block_date.epoch {
            PostCheck::Schedule(
                AwaitLeadership { header, epoch: header.block_date.epoch, parent_ledger_state },
            )
        } else {
            PostCheck::Verify(
                AwaitVerification {
                    candidate: Candidate {
                        header,
                        leadership_schedule: self.leaderships[parent.hash].value,
                        parent_ledger_state,
                    },
                },
            )
        }
    }

    /// The verdict on a header whose parent is at hand.
    pub open spec fn succession(header: Header, parent_ref: Ref<L, S>) -> Result<
        PreCheckedHeader<L, S>,
        Error,
    > {
        let parent = parent_ref.header;
        if header.extends(parent) {
            Ok(PreCheckedHeader::HeaderWithCache { header, parent_ref })
        } else if !header.block_date.later_than(parent.block_date) {
            Err(Error::refusal(ErrorKind::Msg("block is not valid, date is set before parent's")))
        } else {
            Err(
                Error::refusal(
                    ErrorKind::Msg(
                        "block is not valid, chain length is not monotonically increasing",
                    ),
                ),
            )
        }
    }

    /// The chain after the ledger was asked to move on by the block of a candidate,
    /// and the outcome: the block is recorded if the ledger took it.
    pub open spec fn applied(self, candidate: Candidate<L, S>, new_ledger: Result<L, String>) -> (
        Self,
        Result<Ref<L, S>, Error>,
    ) {
        match new_ledger {
            Ok(new_ledger) => {
                let reference = Ref {
                    header: candidate.header,
                    ledger: Arc::new(new_ledger),
                    leadership: candidate.leadership_schedule,
                };
                (self.stored(reference), Ok(reference))
            },
            Err(cause) => (self, Err(Error::failure(ErrorKind::CannotApplyBlock, cause))),
        }
    }

    /// The chain after a first block was recorded and its fork followed.
    pub open spec fn founded(self, reference: Ref<L, S>) -> Self {
        self.stored(reference).with_branch(reference)
    }
}

/// A search that waits for the storage to say whether it has the block.
#[derive(Clone, Copy, Debug)]
pub struct GetRef {
    /// The block that is looked for.
    pub header_hash: HeaderHash,
}

impl GetRef {
    /// The failure to ask the storage for a block.
    pub open spec fn lookup_failure(cause: String) -> Error {
        Error::failure(ErrorKind::Msg("cannot check if the block is in the storage"), cause)
    }

    /// Where the search ends after the storage's answer. It does not end if the storage
    /// has the block.
    pub open spec fn resumed<L, S>(self, block_exists: Result<bool, String>) -> Result<
        Option<Ref<L, S>>,
        Error,
    > {
        match block_exists {
            Ok(true) => arbitrary(),
            Ok(false) => Ok(None::<Ref<L, S>>),
            Err(cause) => Err(Self::lookup_failure(cause)),
        }
    }

    /// Ends the search. A block that neither the cache nor the storage has is not
    /// known. A reference cannot be loaded from the storage, so the search does not
    /// go on if the storage has the block.
    pub fn resume<L, S>(self, block_exists: Result<bool, String>) -> (res: Result<
        Option<Ref<L, S>>,
        Error,
    >)
        requires
            block_exists != Ok::<bool, String>(true),
        ensures
            res == self.resumed::<L, S>(block_exists),
    {
        match block_exists {
            Ok(_) => Ok(None::<Ref<L, S>>),
            Err(cause) => Err(
                Error::with_chain(
                    cause,
                    ErrorKind::Msg("cannot check if the block is in the storage"),
                ),
            ),
        }
    }
}

/// What is known of a header after the first check.
#[derive(Debug)]
pub enum PreCheckedHeader<L, S> {
    /// The block of the header is known already.
    AlreadyPresent {
        /// The header, handed back.
        header: Header,
        /// The reference to the block. It is not there if the storage has the block and
        /// the reference is not at hand.
        cached_reference: Option<Ref<L, S>>,
    },
    /// The block that the header is built on is not known.
    MissingParent {
        /// The header, handed back.
        header: Header,
    },
    /// The block that the header is built on is known, and the header may follow it.
    HeaderWithCache {
        /// The header, handed back.
        header: Header,
        /// The reference to the block that it is built on.
        parent_ref: Ref<L, S>,
    },
}

/// A search for the parent of a header, by itself or in a first check, that waits for the
/// storage to say whether it has a block.
#[derive(Clone, Copy, Debug)]
pub enum PreCheck {
    /// The block of the header itself.
    Own(Header),
    /// The block that the header is built on.
    Parent(Header),
}

impl PreCheck {
    /// The header that is checked.
    pub open spec fn header(self) -> Header {
        match self {
            PreCheck::Own(header) => header,
            PreCheck::Parent(header) => header,
        }
    }

    /// The block that the storage is asked for.
    pub open spec fn subject(self) -> HeaderHash {
        match self {
            PreCheck::Own(header) => header.hash,
            PreCheck::Parent(header) => header.parent_hash,
        }
    }

    /// The block that the storage is asked for.
    pub fn block_id(&self) -> (res: HeaderHash)
        ensures
            res == self.subject(),
            *self matches PreCheck::Own(header) ==> res == header.hash,
            *self matches PreCheck::Parent(header) ==> res == header.parent_hash,
    {
        match self {
            PreCheck::Own(header) => header.hash,
            PreCheck::Parent(header) => header.parent_hash,
        }
    }
}

/// A header, and what it is to be checked against and applied to.
#[derive(Debug)]
pub struct Candidate<L, S> {
    /// The header.
    pub header: Header,
    /// The leadership schedule that the header has to fit.
    pub leadership_schedule: Arc<S>,
    /// The ledger that the block has to be applied to.
    pub parent_ledger_state: Arc<L>,
}

/// The second check of a header.
#[derive(Debug)]
pub enum PostCheck<L, S> {
    /// The epoch of the header needs a leadership schedule.
    Schedule(AwaitLeadership<L>),
    /// The leadership schedule has to judge the header.
    Verify(AwaitVerification<L, S>),
}

/// A second check that waits for the leadership schedule of `epoch`, made from the
/// parent's ledger.
#[derive(Debug)]
pub struct AwaitLeadership<L> {
    /// The header that is checked.
    pub header: Header,
    /// The epoch that needs a schedule.
    pub epoch: u32,
    /// The ledger that the schedule is made from.
    pub parent_ledger_state: Arc<L>,
}

impl<L> AwaitLeadership<L> {
    /// Goes on with the new schedule.
    pub fn resume<S>(self, leadership: S) -> (res: AwaitVerification<L, S>)
        ensures
            res.candidate == (Candidate {
                header: self.header,
                leadership_schedule: Arc::new(leadership),
                parent_ledger_state: self.parent_ledger_state,
            }),
    {
        AwaitVerification {
            candidate: Candidate {
                header: self.header,
                leadership_schedule: Arc::new(leadership),
                parent_ledger_state: self.parent_ledger_state,
            },
        }
    }
}

/// A leadership schedule's judgement of a header.
#[derive(Debug)]
pub enum Verification {
    /// The header fits the schedule.
    Success,
    /// The header does not fit, for the given reason.
    Failure(String),
}

/// A second check that waits for the leadership schedule to judge the header.
#[derive(Debug)]
pub struct AwaitVerification<L, S> {
    /// The header, and the schedule that judges it.
    pub candidate: Candidate<L, S>,
}

impl<L, S> AwaitVerification<L, S> {
    /// Ends the second check with the schedule's judgement.
    pub fn resume(self, verification: Verification) -> (res: Result<
        PostCheckedHeader<L, S>,
        Error,
    >)
        ensures
            match verification {
                Verification::Success => res is Ok && res->Ok_0@ == self.candidate,
                Verification::Failure(reason) => res == Err::<PostCheckedHeader<L, S>, Error>(
                    Error::refusal(ErrorKind::BLockHeaderVerificationFail(reason)),
                ),
            },
    {
        match verification {
            Verification::Success => Ok(PostCheckedHeader { candidate: self.candidate }),
            Verification::Failure(reason) => Err(
                Error::new(ErrorKind::BLockHeaderVerificationFail(reason)),
            ),
        }
    }
}

/// A header that its leadership schedule accepted, as the second check makes it. The
/// fields of [`AwaitVerification`] and of [`ApplyBlock`] are open: whoever builds one of
/// them by hand passes by the check, and answers for the header.
#[derive(Debug)]
pub struct PostCheckedHeader<L, S> {
    candidate: Candidate<L, S>,
}

impl<L, S> PostCheckedHeader<L, S> {
    /// The header, the schedule that accepted it, and the ledger of its parent.
    pub closed spec fn view(&self) -> Candidate<L, S> {
        self.candidate
    }

    /// The header.
    pub fn header(&self) -> (res: Header)
        ensures
            res == self@.header,
    {
        self.candidate.header
    }
}

/// A block that waits for the ledger to be moved on by it: the ledger
/// `parent_ledger_state`, under the parameters of `leadership_schedule`, by the
/// contents of `body` in the context of `header`.
#[derive(Debug)]
pub struct ApplyBlock<C, L, S> {
    /// The header of the block, its schedule and its parent's ledger.
    pub candidate: Candidate<L, S>,
    /// The contents of the block.
    pub body: Arc<C>,
}

/// A first block that waits for the ledger that its contents describe.
#[derive(Debug)]
pub struct ApplyBlock0<C> {
    /// The header of the block.
    pub header: Header,
    /// The contents of the block.
    pub body: Arc<C>,
}

impl<C> ApplyBlock0<C> {
    /// Goes on with the first ledger, if the contents describe one.
    pub fn resume<L>(self, ledger: Result<L, String>) -> (res: Result<
        AwaitBlock0Leadership<L>,
        Error,
    >)
        ensures
            res == (match ledger {
                Ok(ledger) => Ok(
                    AwaitBlock0Leadership { header: self.header, ledger: Arc::new(ledger) },
                ),
                Err(cause) => Err(Error::failure(ErrorKind::Block0InitialLedgerError, cause)),
            }),
    {
        match ledger {
            Ok(ledger) => Ok(
                AwaitBlock0Leadership { header: self.header, ledger: Arc::new(ledger) },
            ),
            Err(cause) => Err(Error::with_chain(cause, ErrorKind::Block0InitialLedgerError)),
        }
    }
}

/// A first block that waits for the leadership schedule of its epoch, made from its
/// ledger.
#[derive(Debug)]
pub struct AwaitBlock0Leadership<L> {
    /// The header of the block.
    pub header: Header,
    /// The ledger that the schedule is made from.
    pub ledger: Arc<L>,
}

/// The blocks that are known, and the forks that are followed.
pub struct Blockchain<L, S> {
    branches: Branches<L, S>,
    ref_cache: RefCache<L, S>,
    multiverse: Multiverse<L>,
    leaderships: Multiverse<S>,
}

impl<L, S> Blockchain<L, S> {
    /// What the chain knows.
    pub closed spec fn view(&self) -> ChainView<L, S> {
        ChainView {
            refs: self.ref_cache@,
            ledgers: self.multiverse@,
            leaderships: self.leaderships@,
            branches: self.branches@,
        }
    }

    /// The stores are in order.
    pub closed spec fn stores_wf(&self) -> bool {
        self.ref_cache.wf() && self.multiverse.wf() && self.leaderships.wf()
    }

    /// The invariant of a chain.
    pub open spec fn wf(&self) -> bool {
        self.stores_wf() && self@.consistent()
    }

    /// How long a reference should stay at hand.
    pub closed spec fn lifetime(&self) -> Duration {
        self.ref_cache.lifetime()
    }

    /// A chain that knows no block. `ref_cache_ttl` is how long a reference should
    /// stay at hand.
    pub fn new(ref_cache_ttl: Duration) -> (res: Self)
        ensures
            res.wf(),
            res@.refs == Map::<HeaderHash, Ref<L, S>>::empty(),
            res@.ledgers == Map::<HeaderHash, State<L>>::empty(),
            res@.leaderships == Map::<HeaderHash, State<S>>::empty(),
            res@.branches == Seq::<Ref<L, S>>::empty(),
            res.lifetime() == ref_cache_ttl,
    {
        Blockchain {
            branches: Branches::new(),
            ref_cache: RefCache::new(ref_cache_ttl),
            multiverse: Multiverse::new(),
            leaderships: Multiverse::new(),
        }
    }

    /// How long a reference should stay at hand.
    pub fn ref_cache_ttl(&self) -> (res: &Duration)
        ensures
            *res == self.lifetime(),
    {
        self.ref_cache.ttl()
    }

    /// Lets go of a reference that has stayed at hand long enough. The states of its
    /// block are kept.
    pub fn expire_ref(&mut self, header_hash: &HeaderHash)
        requires
            old(self).wf(),
        ensures
            final(self).wf(),
            final(self)@ == old(self)@.expired(*header_hash),
            final(self).lifetime() == old(self).lifetime(),
    {
        proof {
            old(self)@.lemma_expired(*header_hash);
        }
        self.ref_cache.remove(header_hash);
    }

    /// The last block of a fork, if the chain follows the fork.
    pub fn branch_ref(&self, branch: Branch) -> (res: Option<Ref<L, S>>)
        ensures
            res == (if self@.follows(branch) {
                Some(self@.branches[branch.index as int])
            } else {
                None
            }),
            branch.index < self@.branches.len() ==> res == Some(
                self@.branches[branch.index as int],
            ),
            branch.index >= self@.branches.len() ==> res is None,
    {
        self.branches.get_ref(branch)
    }

    /// Whether the chain follows the fork.
    pub fn has_branch(&self, branch: Branch) -> (res: bool)
        ensures
            res == self@.follows(branch),
            res == (branch.index < self@.branches.len()),
    {
        branch.index < self.branches.len()
    }

    /// Whether the reference to a block is at hand.
    pub fn has_ref(&self, header_hash: &HeaderHash) -> (res: bool)
        requires
            self.wf(),
        ensures
            res == self@.refs.dom().contains(*header_hash),
    {
        self.ref_cache.get(header_hash).is_some()
    }

    /// Records a block with the states that it leads to.
    fn create_and_store_reference(
        &mut self,
        header_hash: HeaderHash,
        header: Header,
        ledger: Arc<L>,
        leadership: Arc<S>,
    ) -> (res: Ref<L, S>)
        requires
            old(self).wf(),
            header_hash == header.hash,
        ensures
            final(self).wf(),
            final(self)@ == old(self)@.stored(res),
            final(self).lifetime() == old(self).lifetime(),
            res == (Ref { header, ledger, leadership }),
    {
        let chain_length = header.chain_length;
        let ledger_root = self.multiverse.insert(chain_length, header_hash, ledger);
        let leadership_root = self.leaderships.insert(chain_length, header_hash, leadership);
        let reference = Ref::new(ledger_root, leadership_root, header);
        self.ref_cache.insert(header_hash, reference.clone());
        proof {
            old(self)@.lemma_stored(reference);
        }
        reference
    }

    /// Searches for the reference to a block. `None` means that the block is not
    /// known here, and may have to be asked for elsewhere.
    pub fn get_ref(&self, header_hash: HeaderHash) -> (res: Step<GetRef, Option<Ref<L, S>>>)
        requires
            self.wf(),
        ensures
            res == self@.lookup(header_hash),
            self@.refs.dom().contains(header_hash) ==> res == Step::<
                GetRef,
                Option<Ref<L, S>>,
            >::Done(Ok(Some(self@.refs[header_hash]))),
            !self@.refs.dom().contains(header_hash) ==> res == Step::<
                GetRef,
                Option<Ref<L, S>>,
            >::Pending(GetRef { header_hash }),
    {
        match self.ref_cache.get(&header_hash) {
            Some(reference) => Step::Done(Ok(Some(reference))),
            None => Step::Pending(GetRef { header_hash }),
        }
    }

    /// Begins the search for the parent of a header, which comes to its end at once if
    /// the block of the header itself is at hand.
    pub fn load_header_parent(&self, header: Header) -> (res: Step<
        PreCheck,
        PreCheckedHeader<L, S>,
    >)
        requires
            self.wf(),
        ensures
            res == self@.load_own(header),
    {
        match self.get_ref(header.hash) {
            Step::Done(Ok(Some(self_ref))) => Step::Done(
                Ok(PreCheckedHeader::AlreadyPresent { header, cached_reference: Some(self_ref) }),
            ),
            _ => Step::Pending(PreCheck::Own(header)),
        }
    }

    /// Goes on with the search for the parent of a header after the storage has said
    /// whether it has the block that was asked for. A block that is stored is present,
    /// though not at hand. A parent that is stored and not at hand cannot be loaded, so
    /// the search does not go on then.
    pub fn resume_load_header_parent(
        &self,
        task: PreCheck,
        block_exists: Result<bool, String>,
    ) -> (res: Step<PreCheck, PreCheckedHeader<L, S>>)
        requires
            self.wf(),
            task is Parent ==> block_exists != Ok::<bool, String>(true),
        ensures
            res == self@.load_resumed(task, block_exists),
    {
        if let (PreCheck::Own(header), Ok(true)) = (task, &block_exists) {
            return Step::Done(
                Ok(PreCheckedHeader::AlreadyPresent { header, cached_reference: None }),
            );
        }
        let search = GetRef { header_hash: task.block_id() };
        let found: Result<Option<Ref<L, S>>, Error> = search.resume(block_exists);
        match found {
            Err(error) => Step::Done(Err(error)),
            Ok(_) => match task {
                PreCheck::Own(header) => self.find_parent(header),
                PreCheck::Parent(header) => Step::Done(
                    Ok(PreCheckedHeader::MissingParent { header }),
                ),
            },
        }
    }

    /// Looks for the reference to the parent of a header.
    fn find_parent(&self, header: Header) -> (res: Step<PreCheck, PreCheckedHeader<L, S>>)
        requires
            self.wf(),
        ensures
            res == self@.load_parent(header),
    {
        match self.get_ref(header.parent_hash) {
            Step::Done(Ok(Some(parent_ref))) => Step::Done(
                Ok(PreCheckedHeader::HeaderWithCache { header, parent_ref }),
            ),
            _ => Step::Pending(PreCheck::Parent(header)),
        }
    }

    /// Holds a header against its parent, where the parent was found.
    fn judge(step: Step<PreCheck, PreCheckedHeader<L, S>>) -> (res: Step<
        PreCheck,
        PreCheckedHeader<L, S>,
    >)
        ensures
            res == ChainView::judged(step),
    {
        match step {
            Step::Done(Ok(PreCheckedHeader::HeaderWithCache { header, parent_ref })) => {
                if !header.block_date.is_after(&parent_ref.block_date()) {
                    return Step::Done(
                        Err(
                            Error::new(
                                ErrorKind::Msg("block is not valid, date is set before parent's"),
                            ),
                        ),
                    );
                }
                if !header.chain_length.follows(&parent_ref.chain_length()) {
                    return Step::Done(
                        Err(
                            Error::new(
                                ErrorKind::Msg(
                                    "block is not valid, chain length is not monotonically increasing",
                                ),
                            ),
                        ),
                    );
                }
                Step::Done(Ok(PreCheckedHeader::HeaderWithCache { header, parent_ref }))
            },
            step => step,
        }
    }

    /// Looks for the parent of a header, and holds the header against it.
    pub(crate) fn check_header_parent(&self, header: Header) -> (res: Step<
        PreCheck,
        PreCheckedHeader<L, S>,
    >)
        requires
            self.wf(),
        ensures
            res == self@.check_parent(header),
    {
        Self::judge(self.find_parent(header))
    }

    /// Begins the first check of a header: whether its block is known already,
    /// whether its parent is known, and if so whether the header is later than its
    /// parent and one further along the chain.
    pub fn pre_check_header(&self, header: Header) -> (res: Step<PreCheck, PreCheckedHeader<L, S>>)
        requires
            self.wf(),
        ensures
            res == self@.check_own(header),
    {
        Self::judge(self.load_header_parent(header))
    }

    /// Goes on with the first check of a header after the storage has said whether it
    /// has the block that was asked for. A block that is stored is present, though not
    /// at hand. A parent that is stored and not at hand cannot be loaded, so the check
    /// does not go on then.
    pub fn resume_pre_check(&self, task: PreCheck, block_exists: Result<bool, String>) -> (res:
        Step<PreCheck, PreCheckedHeader<L, S>>)
        requires
            self.wf(),
            task is Parent ==> block_exists != Ok::<bool, String>(true),
        ensures
            res == self@.check_resumed(task, block_exists),
    {
        Self::judge(self.resume_load_header_parent(task, block_exists))
    }

    /// The ledger state after a known block.
    fn get_ledger_state(&self, header_hash: &HeaderHash) -> (res: Arc<L>)
        requires
            self.wf(),
            self@.ledgers.dom().contains(*header_hash),
        ensures
            res == self@.ledgers[*header_hash].value,
    {
        self.multiverse.get(header_hash).unwrap()
    }

    /// The leadership schedule of a known block.
    fn get_leadership_state(&self, header_hash: &HeaderHash) -> (res: Arc<S>)
        requires
            self.wf(),
            self@.leaderships.dom().contains(*header_hash),
        ensures
            res == self@.leaderships[*header_hash].value,
    {
        self.leaderships.get(header_hash).unwrap()
    }

    /// Whether the states of a block are recorded here.
    pub fn has_states(&self, header_hash: &HeaderHash) -> (res: bool)
        requires
            self.wf(),
        ensures
            res == self@.ledgers.dom().contains(*header_hash),
    {
        self.multiverse.get(header_hash).is_some()
    }

    /// Begins the second check of a header: whether the leadership schedule accepts it.
    /// The schedule is the one of the parent, unless the header begins an epoch. The
    /// states of the parent have to be recorded here.
    pub fn post_check_header(&self, header: Header, parent: Ref<L, S>) -> (res: PostCheck<L, S>)
        requires
            self.wf(),
            self@.ledgers.dom().contains(parent.header.hash),
        ensures
            res == self@.schedule(header, parent.header),
    {
        let parent_ledger_state = self.get_ledger_state(&parent.hash());
        let parent_leadership_schedule = self.get_leadership_state(&parent.hash());
        let current_date = header.block_date;
        let parent_date = parent.block_date();
        if parent_date.epoch < current_date.epoch {
            PostCheck::Schedule(
                AwaitLeadership { header, epoch: current_date.epoch, parent_ledger_state },
            )
        } else {
            PostCheck::Verify(
                AwaitVerification {
                    candidate: Candidate {
                        header,
                        leadership_schedule: parent_leadership_schedule,
                        parent_ledger_state,
                    },
                },
            )
        }
    }

    /// Begins to apply the block of a header that passed the second check.
    pub fn apply_block<C>(
        &self,
        post_checked_header: PostCheckedHeader<L, S>,
        block: Block<C>,
    ) -> (res: ApplyBlock<C, L, S>)
        requires
            block.header.hash == post_checked_header@.header.hash,
        ensures
            res == (ApplyBlock { candidate: post_checked_header@, body: block.body }),
    {
        ApplyBlock { candidate: post_checked_header.candidate, body: block.body }
    }

    /// Records the block that the ledger was moved on by, with the new ledger and the
    /// schedule that the header was checked against. A block that the ledger rejects
    /// leaves no trace.
    pub fn resume_apply_block<C>(
        &mut self,
        task: ApplyBlock<C, L, S>,
        new_ledger: Result<L, String>,
    ) -> (res: Result<Ref<L, S>, Error>)
        requires
            old(self).wf(),
        ensures
            final(self).wf(),
            (final(self)@, res) == old(self)@.applied(task.candidate, new_ledger),
            final(self).lifetime() == old(self).lifetime(),
    {
        match new_ledger {
            Ok(new_ledger) => {
                let header = task.candidate.header;
                Ok(
                    self.create_and_store_reference(
                        header.hash,
                        header,
                        Arc::new(new_ledger),
                        task.candidate.leadership_schedule,
                    ),
                )
            },
            Err(cause) => Err(Error::with_chain(cause, ErrorKind::CannotApplyBlock)),
        }
    }

    /// Begins to apply a first block.
    pub(crate) fn apply_block0<C>(&self, block0: Block<C>) -> (res: ApplyBlock0<C>)
        ensures
            res == (ApplyBlock0 { header: block0.header, body: block0.body }),
    {
        ApplyBlock0 { header: block0.header, body: block0.body }
    }

    /// Records a first block with its ledger and its leadership schedule, and follows
    /// the fork that it begins.
    pub(crate) fn resume_apply_block0(
        &mut self,
        task: AwaitBlock0Leadership<L>,
        leadership: S,
    ) -> (res: Branch)
        requires
            old(self).wf(),
        ensures
            final(self).wf(),
            final(self)@ == old(self)@.founded(
                Ref {
                    header: task.header,
                    ledger: task.ledger,
                    leadership: Arc::new(leadership),
                },
            ),
            final(self).lifetime() == old(self).lifetime(),
            res.index == old(self)@.branches.len(),
            final(self)@.follows(res),
    {
        let header = task.header;
        let reference = self.create_and_store_reference(
            header.hash,
            header,
            task.ledger,
            Arc::new(leadership),
        );
        self.branches.add(reference)
    }

    /// Moves a fork on to a block whose states are recorded here, and returns the
    /// block that it ended in.
    pub fn update_branch(&mut self, branch: Branch, tip: Ref<L, S>) -> (res: Ref<L, S>)
        requires
            old(self).wf(),
            old(self)@.follows(branch),
            old(self)@.ledgers.dom().contains(tip.header.hash),
        ensures
            final(self).wf(),
            final(self)@ == old(self)@.with_tip(branch, tip),
            final(self).lifetime() == old(self).lifetime(),
            res == old(self)@.branches[branch.index as int],
    {
        proof {
            old(self)@.lemma_with_tip(branch, tip);
        }
        self.branches.update_ref(branch, tip)
    }
}

} // verus!
