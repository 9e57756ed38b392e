//! What the checks of a header tell, and what the recording of a block changes.

use super::branch::Branch;
use super::chain::{
    Candidate, ChainView, GetRef, PostCheck, PreCheck, PreCheckedHeader, Step,
};
use super::error::{Error, ErrorKind};
use super::multiverse::State;
use super::reference::Ref;
use crate::block::{Header, HeaderHash};
use std::sync::Arc;
use vstd::prelude::*;

verus! {

/// The reference to a block is given at once if it is at hand, and as it is at hand. The
/// storage is asked exactly for the blocks that are not. A block that it does not have is
/// not known, and its failure to say is told with what it said.
pub proof fn law_search_takes_what_is_at_hand<L, S>(
    chain: ChainView<L, S>,
    h: HeaderHash,
    cause: String,
)
    ensures
        chain.refs.dom().contains(h) ==> chain.lookup(h) == Step::<
            GetRef,
            Option<Ref<L, S>>,
        >::Done(Ok(Some(chain.refs[h]))),
        !chain.refs.dom().contains(h) ==> chain.lookup(h) == Step::<
            GetRef,
            Option<Ref<L, S>>,
        >::Pending(GetRef { header_hash: h }),
        (GetRef { header_hash: h }).resumed::<L, S>(Ok(false)) == Ok::<
            Option<Ref<L, S>>,
            Error,
        >(None),
        (GetRef { header_hash: h }).resumed::<L, S>(Err(cause)) == Err::<Option<Ref<L, S>>, Error>(
            Error {
                kind: ErrorKind::Msg("cannot check if the block is in the storage"),
                cause: Some(cause),
            },
        ),
{
}

/// The search for a parent asks for the block of the header first, and for the parent
/// only if the block is not known. Each time it takes what is at hand, and else asks the
/// storage for exactly that block.
pub proof fn law_search_asks_for_the_block_then_for_its_parent<L, S>(
    chain: ChainView<L, S>,
    header: Header,
    cause: String,
)
    ensures
        PreCheck::Own(header).subject() == header.hash,
        PreCheck::Parent(header).subject() == header.parent_hash,
        chain.refs.dom().contains(header.hash) ==> chain.load_own(header) == Step::<
            PreCheck,
            PreCheckedHeader<L, S>,
        >::Done(
            Ok(
                PreCheckedHeader::AlreadyPresent {
                    header,
                    cached_reference: Some(chain.refs[header.hash]),
                },
            ),
        ),
        !chain.refs.dom().contains(header.hash) ==> chain.load_own(header) == Step::<
            PreCheck,
            PreCheckedHeader<L, S>,
        >::Pending(PreCheck::Own(header)),
        chain.load_resumed(PreCheck::Own(header), Ok(true)) == Step::<
            PreCheck,
            PreCheckedHeader<L, S>,
        >::Done(Ok(PreCheckedHeader::AlreadyPresent { header, cached_reference: None })),
        chain.refs.dom().contains(header.parent_hash) ==> chain.load_resumed(
            PreCheck::Own(header),
            Ok(false),
        ) == Step::<PreCheck, PreCheckedHeader<L, S>>::Done(
            Ok(
                PreCheckedHeader::HeaderWithCache {
                    header,
                    parent_ref: chain.refs[header.parent_hash],
                },
            ),
        ),
        !chain.refs.dom().contains(header.parent_hash) ==> chain.load_resumed(
            PreCheck::Own(header),
            Ok(false),
        ) == Step::<PreCheck, PreCheckedHeader<L, S>>::Pending(PreCheck::Parent(header)),
        chain.load_resumed(PreCheck::Parent(header), Ok(false)) == Step::<
            PreCheck,
            PreCheckedHeader<L, S>,
        >::Done(Ok(PreCheckedHeader::MissingParent { header })),
        forall|task: PreCheck| #[trigger]
            chain.load_resumed(task, Err(cause)) == Step::<PreCheck, PreCheckedHeader<L, S>>::Done(
                Err(
                    Error {
                        kind: ErrorKind::Msg("cannot check if the block is in the storage"),
                        cause: Some(cause),
                    },
                ),
            ),
{
}

/// A header whose parent is at hand passes the first check exactly if its epoch is later
/// than its parent's, or the same with a later slot, and its chain is longer by one. With
/// any other date it is refused for its date, and with a good date and any other length
/// for its length.
pub proof fn law_header_is_held_against_its_parent<L, S>(chain: ChainView<L, S>, header: Header)
    requires
        chain.refs.dom().contains(header.parent_hash),
    ensures
        ({
            let parent_ref = chain.refs[header.parent_hash];
            let date = header.block_date;
            let parent_date = parent_ref.header.block_date;
            let later = date.epoch > parent_date.epoch || (date.epoch == parent_date.epoch
                && date.slot_id > parent_date.slot_id);
            let next = header.chain_length.0 == parent_ref.header.chain_length.0 + 1;
            let outcome = chain.check_parent(header);
            &&& later && next <==> outcome == Step::<PreCheck, PreCheckedHeader<L, S>>::Done(
                Ok(PreCheckedHeader::HeaderWithCache { header, parent_ref }),
            )
            &&& !later ==> outcome == Step::<PreCheck, PreCheckedHeader<L, S>>::Done(
                Err(
                    Error {
                        kind: ErrorKind::Msg("block is not valid, date is set before parent's"),
                        cause: None,
                    },
                ),
            )
            &&& later && !next ==> outcome == Step::<PreCheck, PreCheckedHeader<L, S>>::Done(
                Err(
                    Error {
                        kind: ErrorKind::Msg(
                            "block is not valid, chain length is not monotonically increasing",
                        ),
                        cause: None,
                    },
                ),
            )
            &&& chain.check_resumed(PreCheck::Own(header), Ok(false)) == outcome
        }),
{
}

/// Where there is no parent to hold the header against, the first check says what the
/// search for the parent says: that the block is present, that a block has to be asked
/// for, that the parent is missing, or that the storage failed.
pub proof fn law_first_check_without_a_parent<L, S>(
    chain: ChainView<L, S>,
    header: Header,
    cause: String,
)
    ensures
        chain.refs.dom().contains(header.hash) ==> chain.check_own(header) == Step::<
            PreCheck,
            PreCheckedHeader<L, S>,
        >::Done(
            Ok(
                PreCheckedHeader::AlreadyPresent {
                    header,
                    cached_reference: Some(chain.refs[header.hash]),
                },
            ),
        ),
        !chain.refs.dom().contains(header.hash) ==> chain.check_own(header) == Step::<
            PreCheck,
            PreCheckedHeader<L, S>,
        >::Pending(PreCheck::Own(header)),
        chain.check_resumed(PreCheck::Own(header), Ok(true)) == Step::<
            PreCheck,
            PreCheckedHeader<L, S>,
        >::Done(Ok(PreCheckedHeader::AlreadyPresent { header, cached_reference: None })),
        !chain.refs.dom().contains(header.parent_hash) ==> chain.check_resumed(
            PreCheck::Own(header),
            Ok(false),
        ) == Step::<PreCheck, PreCheckedHeader<L, S>>::Pending(PreCheck::Parent(header)),
        chain.check_resumed(PreCheck::Parent(header), Ok(false)) == Step::<
            PreCheck,
            PreCheckedHeader<L, S>,
        >::Done(Ok(PreCheckedHeader::MissingParent { header })),
        forall|task: PreCheck| #[trigger]
            chain.check_resumed(task, Err(cause)) == Step::<PreCheck, PreCheckedHeader<L, S>>::Done(
                Err(
                    Error {
                        kind: ErrorKind::Msg("cannot check if the block is in the storage"),
                        cause: Some(cause),
                    },
                ),
            ),
{
}

/// The second check makes a new schedule exactly for a header whose epoch is later than
/// its parent's, for the epoch of the header and from the ledger after its parent. Any
/// other header is judged by the schedule of its parent. Either way it is to be applied to
/// the ledger after its parent.
pub proof fn law_second_check_reads_the_states_of_the_parent<L, S>(
    chain: ChainView<L, S>,
    header: Header,
    parent: Header,
)
    ensures
        header.block_date.epoch > parent.block_date.epoch <==> chain.schedule(
            header,
            parent,
        ) is Schedule,
        chain.schedule(header, parent) matches PostCheck::Schedule(task) ==> {
            &&& task.header == header
            &&& task.epoch == header.block_date.epoch
            &&& task.parent_ledger_state == chain.ledgers[parent.hash].value
        },
        chain.schedule(header, parent) matches PostCheck::Verify(task) ==> {
            &&& task.candidate.header == header
            &&& task.candidate.leadership_schedule == chain.leaderships[parent.hash].value
            &&& task.candidate.parent_ledger_state == chain.ledgers[parent.hash].value
        },
{
}

/// A block that was recorded is at hand, with its ledger, its schedule and its position
/// recorded. Every other block is as it was, and so are the forks.
pub proof fn law_recording_changes_one_block<L, S>(
    chain: ChainView<L, S>,
    reference: Ref<L, S>,
    other: HeaderHash,
)
    ensures
        ({
            let after = chain.stored(reference);
            let h = reference.header.hash;
            let chain_length = reference.header.chain_length;
            &&& after.refs.dom().contains(h) && after.refs[h] == reference
            &&& after.ledgers.dom().contains(h) && after.ledgers[h] == (State {
                chain_length,
                value: reference.ledger,
            })
            &&& after.leaderships.dom().contains(h) && after.leaderships[h] == (State {
                chain_length,
                value: reference.leadership,
            })
            &&& other != h ==> {
                &&& after.refs.get(other) == chain.refs.get(other)
                &&& after.ledgers.get(other) == chain.ledgers.get(other)
                &&& after.leaderships.get(other) == chain.leaderships.get(other)
            }
            &&& after.branches == chain.branches
        }),
{
}

/// A first block is recorded as any other, and begins one more fork.
pub proof fn law_first_block_begins_a_fork<L, S>(chain: ChainView<L, S>, reference: Ref<L, S>)
    ensures
        ({
            let after = chain.founded(reference);
            let recorded = chain.stored(reference);
            &&& after.refs == recorded.refs
            &&& after.ledgers == recorded.ledgers
            &&& after.leaderships == recorded.leaderships
            &&& after.branches.len() == chain.branches.len() + 1
            &&& after.branches.last() == reference
            &&& forall|i: int|
                0 <= i < chain.branches.len() ==> (#[trigger] after.branches[i])
                    == chain.branches[i]
        }),
{
}

/// A fork that moves on ends in the new block. No other fork and no block is affected.
pub proof fn law_one_fork_moves_on<L, S>(
    chain: ChainView<L, S>,
    branch: Branch,
    tip: Ref<L, S>,
)
    requires
        branch.index < chain.branches.len(),
    ensures
        ({
            let after = chain.with_tip(branch, tip);
            &&& after.refs == chain.refs
            &&& after.ledgers == chain.ledgers
            &&& after.leaderships == chain.leaderships
            &&& after.branches.len() == chain.branches.len()
            &&& after.branches[branch.index as int] == tip
            &&& forall|i: int|
                0 <= i < chain.branches.len() && i != branch.index ==> (
                #[trigger] after.branches[i]) == chain.branches[i]
        }),
{
}

/// A reference that was let go of is not at hand, and that is all that changes.
pub proof fn law_letting_go_affects_one_reference<L, S>(
    chain: ChainView<L, S>,
    h: HeaderHash,
    other: HeaderHash,
)
    ensures
        ({
            let after = chain.expired(h);
            &&& !after.refs.dom().contains(h)
            &&& other != h ==> after.refs.get(other) == chain.refs.get(other)
            &&& after.ledgers == chain.ledgers
            &&& after.leaderships == chain.leaderships
            &&& after.branches == chain.branches
        }),
{
}

/// A block that the ledger takes is recorded with the new ledger, and with the schedule
/// that its candidate has. A block that the ledger rejects leaves no trace, and what the
/// ledger said is told.
pub proof fn law_block_is_recorded_if_the_ledger_takes_it<L, S>(
    chain: ChainView<L, S>,
    candidate: Candidate<L, S>,
    ledger: L,
    cause: String,
)
    ensures
        ({
            let reference = Ref {
                header: candidate.header,
                ledger: Arc::new(ledger),
                leadership: candidate.leadership_schedule,
            };
            &&& chain.applied(candidate, Ok(ledger)) == (
                chain.stored(reference),
                Ok::<Ref<L, S>, Error>(reference),
            )
            &&& chain.applied(candidate, Err(cause)) == (
                chain,
                Err::<Ref<L, S>, Error>(
                    Error { kind: ErrorKind::CannotApplyBlock, cause: Some(cause) },
                ),
            )
        }),
{
}

} // verus!
