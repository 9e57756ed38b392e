//! What holds of a chain whatever happens to it.

use super::branch::Branch;
use super::chain::{
    AwaitLeadership, AwaitVerification, Candidate, ChainView, GetRef, PostCheck, PreCheck,
    PreCheckedHeader, Step,
};
use super::error::{Error, ErrorKind};
use super::load_block0::LoadFromBlock0;
use super::load_storage::LoadFromStorage;
use super::reference::Ref;
use super::request::Reply;
use crate::block::{Block, Header, HeaderHash};
use std::sync::Arc;
use vstd::prelude::*;

verus! {

impl<L, S> ChainView<L, S> {
    /// Where the first check of a header ends, with the storage's answers for the block
    /// itself and for its parent, as far as they are asked for.
    pub open spec fn pre_check_run(
        self,
        header: Header,
        own: Result<bool, String>,
        parent: Result<bool, String>,
    ) -> Step<PreCheck, PreCheckedHeader<L, S>> {
        match self.check_own(header) {
            Step::Pending(task) => match self.check_resumed(task, own) {
                Step::Pending(task) => self.check_resumed(task, parent),
                done => done,
            },
            done => done,
        }
    }

    /// Where the search for the parent of a header ends, with the storage's answers for
    /// the block itself and for its parent, as far as they are asked for.
    pub open spec fn load_run(
        self,
        header: Header,
        own: Result<bool, String>,
        parent: Result<bool, String>,
    ) -> Step<PreCheck, PreCheckedHeader<L, S>> {
        match self.load_own(header) {
            Step::Pending(task) => match self.load_resumed(task, own) {
                Step::Pending(task) => self.load_resumed(task, parent),
                done => done,
            },
            done => done,
        }
    }

    /// A parent that the storage has is at hand.
    pub open spec fn has_parent_at_hand(
        self,
        header: Header,
        parent: Result<bool, String>,
    ) -> bool {
        parent == Ok::<bool, String>(true) ==> self.refs.dom().contains(header.parent_hash)
    }

    /// Where the search for a block ends, with the storage's answer if it is asked for.
    pub open spec fn get_ref_run(self, h: HeaderHash, exists: Result<bool, String>) -> Result<
        Option<Ref<L, S>>,
        Error,
    > {
        match self.lookup(h) {
            Step::Pending(task) => task.resumed(exists),
            Step::Done(result) => result,
        }
    }

    /// The reference to the block of the header is at hand.
    pub open spec fn knows(self, header: Header) -> bool {
        self.refs.dom().contains(header.hash) && self.refs[header.hash].header == header
    }

    /// The parent of the block of the header is at hand, and the header may follow it.
    pub open spec fn links(self, header: Header) -> bool {
        self.refs.dom().contains(header.parent_hash) && header.extends(
            self.refs[header.parent_hash].header,
        )
    }

    /// Within an epoch the schedule that is recorded for the block of the header is the one
    /// that is recorded for its parent.
    pub open spec fn inherits(self, header: Header) -> bool {
        header.block_date.epoch <= self.refs[header.parent_hash].header.block_date.epoch
            ==> self.leaderships[header.hash].value == self.leaderships[header.parent_hash].value
    }

    /// The two chains have the same to say of the block `h`: the same reference and the
    /// same states, or none.
    pub open spec fn same_at(self, other: Self, h: HeaderHash) -> bool {
        &&& self.refs.get(h) == other.refs.get(h)
        &&& self.ledgers.get(h) == other.ledgers.get(h)
        &&& self.leaderships.get(h) == other.leaderships.get(h)
    }

    /// No block that has states here is without them in `later`, and there is the same to
    /// say in `later` of every block that is not one of `recorded`.
    pub open spec fn kept_by(self, later: Self, recorded: Set<HeaderHash>) -> bool {
        &&& self.ledgers.dom().subset_of(later.ledgers.dom())
        &&& self.leaderships.dom().subset_of(later.leaderships.dom())
        &&& forall|h: HeaderHash| !recorded.contains(h) ==> #[trigger] self.same_at(later, h)
    }
}

/// Whoever has the reference to a block has the ledger state after the block and the
/// leadership schedule of the block, and the chain has recorded the same two.
pub proof fn law_reference_comes_with_states<L, S>(
    chain: ChainView<L, S>,
    h: HeaderHash,
    reference: Ref<L, S>,
)
    requires
        chain.consistent(),
        chain.lookup(h) == Step::<GetRef, Option<Ref<L, S>>>::Done(Ok(Some(reference))),
    ensures
        reference.header.hash == h,
        chain.ledgers.dom().contains(h),
        chain.ledgers[h].value == reference.ledger,
        chain.leaderships.dom().contains(h),
        chain.leaderships[h].value == reference.leadership,
{
    assert(chain.backs(h, chain.refs[h]));
}

/// The search for a block ends without a reference only for a block that is not known
/// here: its reference is not at hand, and the storage did not fail to say that it does
/// not have the block. The storage can make the search fail only if the reference is not
/// at hand.
pub proof fn law_no_reference_means_not_known<L, S>(
    chain: ChainView<L, S>,
    h: HeaderHash,
    exists: Result<bool, String>,
)
    requires
        exists != Ok::<bool, String>(true),
    ensures
        ({
            let found = chain.get_ref_run(h, exists);
            let at_hand = chain.refs.dom().contains(h);
            &&& found == Ok::<Option<Ref<L, S>>, Error>(None) <==> !at_hand && exists is Ok
            &&& found == Ok::<Option<Ref<L, S>>, Error>(Some(chain.refs[h])) <==> at_hand
            &&& found is Err <==> !at_hand && exists is Err
        }),
{
}

/// A block that was recorded is found at once, without the storage, and is reported as
/// present when its header comes again. The search for any other block goes as before.
pub proof fn law_recorded_block_is_found<L, S>(
    chain: ChainView<L, S>,
    reference: Ref<L, S>,
    other: HeaderHash,
)
    ensures
        chain.stored(reference).lookup(reference.header.hash) == Step::<
            GetRef,
            Option<Ref<L, S>>,
        >::Done(Ok(Some(reference))),
        chain.stored(reference).check_own(reference.header) == Step::<
            PreCheck,
            PreCheckedHeader<L, S>,
        >::Done(
            Ok(
                PreCheckedHeader::AlreadyPresent {
                    header: reference.header,
                    cached_reference: Some(reference),
                },
            ),
        ),
        other != reference.header.hash ==> chain.stored(reference).lookup(other) == chain.lookup(
            other,
        ),
{
}

/// After a reference was let go of, the search for its block goes to the storage. Other
/// blocks are found as before, and all states are as they were.
pub proof fn law_expired_reference_is_not_at_hand<L, S>(
    chain: ChainView<L, S>,
    h: HeaderHash,
    other: HeaderHash,
)
    ensures
        chain.expired(h).lookup(h) == Step::<GetRef, Option<Ref<L, S>>>::Pending(
            GetRef { header_hash: h },
        ),
        other != h ==> chain.expired(h).lookup(other) == chain.lookup(other),
        chain.expired(h).ledgers == chain.ledgers,
        chain.expired(h).leaderships == chain.leaderships,
{
}

/// A header whose block is not known leads to its parent: the header comes with the
/// reference to the parent exactly if the search for the parent finds one, the parent
/// is missing exactly if that search finds none, and the search fails exactly if that one
/// does. The block is never said to be present.
pub proof fn law_search_leads_to_parent<L, S>(
    chain: ChainView<L, S>,
    header: Header,
    own: Result<bool, String>,
    parent: Result<bool, String>,
    parent_ref: Ref<L, S>,
    error: Error,
)
    requires
        own != Ok::<bool, String>(true),
        chain.get_ref_run(header.hash, own) == Ok::<Option<Ref<L, S>>, Error>(None),
        chain.has_parent_at_hand(header, parent),
    ensures
        ({
            let found = chain.get_ref_run(header.parent_hash, parent);
            let outcome = chain.load_run(header, own, parent);
            &&& found == Ok::<Option<Ref<L, S>>, Error>(Some(parent_ref)) <==> outcome == Step::<
                PreCheck,
                PreCheckedHeader<L, S>,
            >::Done(Ok(PreCheckedHeader::HeaderWithCache { header, parent_ref }))
            &&& found == Ok::<Option<Ref<L, S>>, Error>(None) <==> outcome == Step::<
                PreCheck,
                PreCheckedHeader<L, S>,
            >::Done(Ok(PreCheckedHeader::MissingParent { header }))
            &&& found == Err::<Option<Ref<L, S>>, Error>(error) <==> outcome == Step::<
                PreCheck,
                PreCheckedHeader<L, S>,
            >::Done(Err(error))
            &&& outcome matches Step::Done(Ok(checked)) ==> !(checked is AlreadyPresent)
        }),
{
}

/// A header whose block is known is present, whatever there is to say of its parent: with
/// the reference to the block if that is at hand, and without it if the storage has the
/// block. If the storage fails to say, the search fails.
pub proof fn law_search_finds_the_block_first<L, S>(
    chain: ChainView<L, S>,
    header: Header,
    own: Result<bool, String>,
    parent: Result<bool, String>,
)
    ensures
        ({
            let outcome = chain.load_run(header, own, parent);
            let at_hand = chain.refs.dom().contains(header.hash);
            &&& at_hand ==> outcome == Step::<PreCheck, PreCheckedHeader<L, S>>::Done(
                Ok(
                    PreCheckedHeader::AlreadyPresent {
                        header,
                        cached_reference: Some(chain.refs[header.hash]),
                    },
                ),
            )
            &&& !at_hand && own == Ok::<bool, String>(true) ==> outcome == Step::<
                PreCheck,
                PreCheckedHeader<L, S>,
            >::Done(Ok(PreCheckedHeader::AlreadyPresent { header, cached_reference: None }))
            &&& own matches Err(cause) ==> !at_hand ==> outcome == Step::<
                PreCheck,
                PreCheckedHeader<L, S>,
            >::Done(Err(GetRef::lookup_failure(cause)))
        }),
{
}

/// The first check of a header differs from the search for its parent in one case only:
/// where the parent was found and the header may not follow it, the check fails. What
/// the search says of a block that is present or of a parent that is missing, and its
/// failure, the check passes on.
pub proof fn law_first_check_only_adds_succession<L, S>(
    chain: ChainView<L, S>,
    header: Header,
    own: Result<bool, String>,
    parent: Result<bool, String>,
)
    ensures
        ({
            let searched = chain.load_run(header, own, parent);
            let outcome = chain.pre_check_run(header, own, parent);
            match searched {
                Step::Done(Ok(PreCheckedHeader::HeaderWithCache { header, parent_ref })) => {
                    if header.extends(parent_ref.header) {
                        outcome == searched
                    } else {
                        outcome is Done && outcome->Done_0 is Err
                    }
                },
                _ => outcome == searched,
            }
        }),
{
}

/// The first check ends in one of five ways. The block is present, with its reference if
/// that is at hand, and without it if only the storage has the block. Else, if the
/// storage said that it does not have the block, the header may follow its parent exactly
/// if the parent is at hand, the date of the header is later and its chain longer by one;
/// and the parent is missing exactly if its reference is not at hand and the storage said
/// that it does not have the parent. Else the header is rejected.
pub proof fn law_first_check_outcomes<L, S>(
    chain: ChainView<L, S>,
    header: Header,
    own: Result<bool, String>,
    parent: Result<bool, String>,
)
    requires
        chain.has_parent_at_hand(header, parent),
    ensures
        ({
            let outcome = chain.pre_check_run(header, own, parent);
            let at_hand = chain.refs.dom().contains(header.hash);
            let stored = !at_hand && own == Ok::<bool, String>(true);
            let new = !at_hand && own == Ok::<bool, String>(false);
            let parent_at_hand = chain.refs.dom().contains(header.parent_hash);
            let parent_ref = chain.refs[header.parent_hash];
            let missing = new && !parent_at_hand && parent == Ok::<bool, String>(false);
            &&& at_hand <==> outcome == Step::<PreCheck, PreCheckedHeader<L, S>>::Done(
                Ok(
                    PreCheckedHeader::AlreadyPresent {
                        header,
                        cached_reference: Some(chain.refs[header.hash]),
                    },
                ),
            )
            &&& stored <==> outcome == Step::<PreCheck, PreCheckedHeader<L, S>>::Done(
                Ok(PreCheckedHeader::AlreadyPresent { header, cached_reference: None }),
            )
            &&& new && chain.links(header) <==> outcome == Step::<
                PreCheck,
                PreCheckedHeader<L, S>,
            >::Done(Ok(PreCheckedHeader::HeaderWithCache { header, parent_ref }))
            &&& missing <==> outcome == Step::<PreCheck, PreCheckedHeader<L, S>>::Done(
                Ok(PreCheckedHeader::MissingParent { header }),
            )
            &&& (outcome is Done && outcome->Done_0 is Err) <==> !(at_hand || stored || missing || (
            new && chain.links(header)))
        }),
{
}

/// A failure of the storage is passed on, where the storage had to be asked.
pub proof fn law_storage_failure_ends_first_check<L, S>(
    chain: ChainView<L, S>,
    header: Header,
    cause: String,
    parent: Result<bool, String>,
)
    requires
        !chain.refs.dom().contains(header.hash),
    ensures
        chain.pre_check_run(header, Err(cause), parent) == Step::<
            PreCheck,
            PreCheckedHeader<L, S>,
        >::Done(Err(GetRef::lookup_failure(cause))),
        !chain.refs.dom().contains(header.parent_hash) ==> chain.pre_check_run(
            header,
            Ok(false),
            Err(cause),
        ) == Step::<PreCheck, PreCheckedHeader<L, S>>::Done(Err(GetRef::lookup_failure(cause))),
{
}

/// A header that passed the first check can go through the second: its parent is the
/// block that it names, and the states of the parent are recorded.
pub proof fn law_first_check_leads_to_second<L, S>(
    chain: ChainView<L, S>,
    header: Header,
    own: Result<bool, String>,
    parent: Result<bool, String>,
    checked: Header,
    parent_ref: Ref<L, S>,
)
    requires
        chain.consistent(),
        chain.has_parent_at_hand(header, parent),
        chain.pre_check_run(header, own, parent) == Step::<
            PreCheck,
            PreCheckedHeader<L, S>,
        >::Done(Ok(PreCheckedHeader::HeaderWithCache { header: checked, parent_ref })),
    ensures
        checked == header,
        parent_ref.header.hash == header.parent_hash,
        header.extends(parent_ref.header),
        chain.ledgers.dom().contains(parent_ref.header.hash),
        chain.leaderships.dom().contains(parent_ref.header.hash),
{
    assert(chain.backs(header.parent_hash, chain.refs[header.parent_hash]));
}

/// Within an epoch a block is checked against the schedule of its parent. The first
/// block of an epoch is checked against a schedule that is made for that epoch from
/// the ledger of its parent. Either way the block is applied to the ledger of its
/// parent.
pub proof fn law_schedule_lasts_an_epoch<L, S>(
    chain: ChainView<L, S>,
    header: Header,
    parent_ref: Ref<L, S>,
)
    requires
        chain.consistent(),
        chain.refs.dom().contains(parent_ref.header.hash),
        chain.refs[parent_ref.header.hash] == parent_ref,
    ensures
        header.block_date.epoch <= parent_ref.header.block_date.epoch ==> chain.schedule(
            header,
            parent_ref.header,
        ) == PostCheck::<L, S>::Verify(
            AwaitVerification {
                candidate: Candidate {
                    header,
                    leadership_schedule: parent_ref.leadership,
                    parent_ledger_state: parent_ref.ledger,
                },
            },
        ),
        header.block_date.epoch > parent_ref.header.block_date.epoch ==> chain.schedule(
            header,
            parent_ref.header,
        ) == PostCheck::<L, S>::Schedule(
            AwaitLeadership {
                header,
                epoch: header.block_date.epoch,
                parent_ledger_state: parent_ref.ledger,
            },
        ),
{
    assert(chain.backs(parent_ref.header.hash, chain.refs[parent_ref.header.hash]));
}

/// A block that was applied can be built on: the header of a new block that names it,
/// with a later date and a chain longer by one, passes the first check against it.
pub proof fn law_applied_block_can_be_built_on<L, S>(
    chain: ChainView<L, S>,
    candidate: Candidate<L, S>,
    ledger: L,
    child: Header,
    parent: Result<bool, String>,
)
    requires
        child.parent_hash == candidate.header.hash,
        child.hash != candidate.header.hash,
        child.extends(candidate.header),
        !chain.refs.dom().contains(child.hash),
    ensures
        ({
            let parent_ref = Ref {
                header: candidate.header,
                ledger: Arc::new(ledger),
                leadership: candidate.leadership_schedule,
            };
            let (after, outcome) = chain.applied(candidate, Ok(ledger));
            &&& outcome == Ok::<Ref<L, S>, Error>(parent_ref)
            &&& after.pre_check_run(child, Ok(false), parent) == Step::<
                PreCheck,
                PreCheckedHeader<L, S>,
            >::Done(Ok(PreCheckedHeader::HeaderWithCache { header: child, parent_ref }))
        }),
{
}

/// A block whose header passes the first check against a parent at hand, and which its
/// schedule and then the ledger accept, joins the chain: it is found at once, with the
/// ledger that it leads to and the schedule that accepted it. Within an epoch that is
/// the schedule of its parent; at the first block of an epoch it is the one that was
/// made for the epoch.
pub proof fn law_accepted_block_joins_the_chain<L, S>(
    chain: ChainView<L, S>,
    header: Header,
    made: S,
    ledger: L,
)
    requires
        chain.consistent(),
        chain.links(header),
    ensures
        ({
            let parent_ref = chain.refs[header.parent_hash];
            let leadership = if header.block_date.epoch > parent_ref.header.block_date.epoch {
                Arc::new(made)
            } else {
                parent_ref.leadership
            };
            let candidate = match chain.schedule(header, parent_ref.header) {
                PostCheck::Schedule(task) => Candidate {
                    header: task.header,
                    leadership_schedule: Arc::new(made),
                    parent_ledger_state: task.parent_ledger_state,
                },
                PostCheck::Verify(task) => task.candidate,
            };
            let after = chain.applied(candidate, Ok(ledger)).0;
            &&& candidate.parent_ledger_state == parent_ref.ledger
            &&& after.consistent()
            &&& after.lookup(header.hash) == Step::<GetRef, Option<Ref<L, S>>>::Done(
                Ok(Some(Ref { header, ledger: Arc::new(ledger), leadership })),
            )
        }),
{
    assert(chain.backs(header.parent_hash, chain.refs[header.parent_hash]));
    let parent_ref = chain.refs[header.parent_hash];
    let leadership = if header.block_date.epoch > parent_ref.header.block_date.epoch {
        Arc::new(made)
    } else {
        parent_ref.leadership
    };
    chain.lemma_stored(Ref { header, ledger: Arc::new(ledger), leadership });
}

/// The recording of a block leaves the states and the reference of every other block as
/// they are, and so does each step of loading a chain. No block that has states loses
/// them.
pub proof fn law_states_are_kept<C, L, S>(
    chain: ChainView<L, S>,
    reference: Ref<L, S>,
    candidate: Candidate<L, S>,
    ledger: Result<L, String>,
    from_block0: LoadFromBlock0<C, L>,
    from_storage: LoadFromStorage<C, L, S>,
    reply: Reply<C, L, S>,
)
    ensures
        chain.kept_by(chain.stored(reference), set![reference.header.hash]),
        chain.kept_by(chain.founded(reference), set![reference.header.hash]),
        chain.kept_by(chain.applied(candidate, ledger).0, set![candidate.header.hash]),
        ledger is Err ==> chain.applied(candidate, ledger).0 == chain,
        chain.kept_by(from_block0.step(chain, reply).0, from_block0.recorded()),
        chain.kept_by(from_storage.step(chain, reply).0, from_storage.recorded()),
{
}

/// Whether the first block is stored decides between the two ways to bring up a chain:
/// on the same answer of the storage one of them goes on and the other refuses, and
/// neither has changed the chain.
pub proof fn law_one_way_to_bring_up<C, L, S>(
    chain: ChainView<L, S>,
    block0: Block<C>,
    exists: bool,
)
    ensures
        ({
            let reply = Reply::<C, L, S>::Exists(Ok(exists));
            let from_block0 = LoadFromBlock0::<C, L>::Exists { block0 }.step(chain, reply);
            let from_storage = LoadFromStorage::<C, L, S>::Exists { block0 }.step(chain, reply);
            &&& from_block0.0 == chain && from_storage.0 == chain
            &&& from_block0.1 is Pending <==> !exists
            &&& from_storage.1 is Pending <==> exists
            &&& exists ==> from_block0.1 == Step::<LoadFromBlock0<C, L>, Branch>::Done(
                Err(Error::refusal(ErrorKind::Block0AlreadyInStorage)),
            )
            &&& !exists ==> from_storage.1 == Step::<LoadFromStorage<C, L, S>, Branch>::Done(
                Err(Error::refusal(ErrorKind::Block0NotAlreadyInStorage)),
            )
        }),
{
}

} // verus!
