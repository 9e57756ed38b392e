//! The blocks that are known, the states that they lead to, and the rules by
//! which another block joins them.
//!
//! A block that is known is represented by a [`Ref`], which has the block's header,
//! the ledger state after the block and the leadership schedule that the block was
//! checked against. A [`Branch`] follows one fork of the chain by the [`Ref`] of its
//! last block. The [`Blockchain`] holds all of them.

mod branch;
mod chain;
pub mod check_laws;
mod error;
mod index;
pub mod laws;
pub mod load_laws;
mod load_block0;
mod load_storage;
mod multiverse;
mod reference;
mod reference_cache;
mod request;
pub mod request_laws;

pub use branch::{Branch, Branches};
pub use chain::{
    ApplyBlock, ApplyBlock0, AwaitBlock0Leadership, AwaitLeadership, AwaitVerification, Blockchain,
    Candidate, ChainView, GetRef, PostCheck, PostCheckedHeader, PreCheck, PreCheckedHeader, Step,
    Verification,
};
pub use error::{Error, ErrorKind};
pub use load_block0::LoadFromBlock0;
pub use load_storage::LoadFromStorage;
pub use multiverse::{Multiverse, State};
pub use reference::Ref;
pub use reference_cache::RefCache;
pub use request::{Reply, Request, MAIN_BRANCH_TAG};
