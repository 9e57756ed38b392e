//! What can go wrong with a block.

use vstd::prelude::*;
use vstd::string::*;

verus! {

/// The kinds of failure.
#[derive(Debug)]
pub enum ErrorKind {
    /// A failure that has no more than a message.
    Msg(&'static str),
    /// The first block does not describe a ledger.
    Block0InitialLedgerError,
    /// The first block was to be stored, and is stored already.
    Block0AlreadyInStorage,
    /// The first block was to be found in the storage, and is not there.
    Block0NotAlreadyInStorage,
    /// The storage has no such tag.
    NoTag(&'static str),
    /// The leadership schedule rejects the header, for the given reason.
    BLockHeaderVerificationFail(String),
    /// The ledger rejects the block.
    CannotApplyBlock,
}

impl ErrorKind {
    /// The fixed text of each kind of failure.
    pub open spec fn description_spec(&self) -> Seq<char> {
        match self {
            ErrorKind::Msg(text) => text@,
            ErrorKind::Block0InitialLedgerError =>
                "Error while creating the initial ledger out of the block0"@,
            ErrorKind::Block0AlreadyInStorage => "Block0 already exists in the storage"@,
            ErrorKind::Block0NotAlreadyInStorage => "Block0 already is not yet in the storage"@,
            ErrorKind::NoTag(_) => "Missing tag from the storage"@,
            ErrorKind::BLockHeaderVerificationFail(_) => "Block header verification failed"@,
            ErrorKind::CannotApplyBlock =>
                "Block cannot be applied on top of the previous block's ledger state"@,
        }
    }

    /// The text for a reader: the description, or a sentence with the particulars
    /// where the kind has any.
    pub open spec fn message_spec(&self) -> Seq<char> {
        match self {
            ErrorKind::NoTag(tag) => "Tag '"@ + tag@ + "' not found in the storage"@,
            ErrorKind::BLockHeaderVerificationFail(reason) =>
                "The block header verification failed: "@ + reason@,
            _ => self.description_spec(),
        }
    }

    /// The fixed text of this kind of failure.
    pub fn description(&self) -> (res: &'static str)
        ensures
            res@ == self.description_spec(),
            *self matches ErrorKind::Msg(text) ==> res@ == text@,
    {
        match self {
            ErrorKind::Msg(text) => *text,
            ErrorKind::Block0InitialLedgerError =>
                "Error while creating the initial ledger out of the block0",
            ErrorKind::Block0AlreadyInStorage => "Block0 already exists in the storage",
            ErrorKind::Block0NotAlreadyInStorage => "Block0 already is not yet in the storage",
            ErrorKind::NoTag(_) => "Missing tag from the storage",
            ErrorKind::BLockHeaderVerificationFail(_) => "Block header verification failed",
            ErrorKind::CannotApplyBlock =>
                "Block cannot be applied on top of the previous block's ledger state",
        }
    }

    /// The text for a reader.
    pub fn message(&self) -> (res: String)
        ensures
            res@ == self.message_spec(),
            *self matches ErrorKind::Msg(text) ==> res@ == text@,
            *self matches ErrorKind::NoTag(tag) ==> res@ == "Tag '"@ + tag@
                + "' not found in the storage"@,
            *self matches ErrorKind::BLockHeaderVerificationFail(reason) ==> res@
                == "The block header verification failed: "@ + reason@,
    {
        match self {
            ErrorKind::NoTag(tag) => {
                "Tag '".to_owned().concat(*tag).concat("' not found in the storage")
            },
            ErrorKind::BLockHeaderVerificationFail(reason) => {
                "The block header verification failed: ".to_owned().concat(reason.as_str())
            },
            _ => self.description().to_owned(),
        }
    }
}

/// A failure, and the outside failure that led to it, if one did.
#[derive(Debug)]
pub struct Error {
    /// What failed.
    pub kind: ErrorKind,
    /// What the storage or the ledger said about it.
    pub cause: Option<String>,
}

impl Error {
    /// A failure that nothing outside led to.
    pub open spec fn refusal(kind: ErrorKind) -> Error {
        Error { kind, cause: None }
    }

    /// A failure that `cause` led to.
    pub open spec fn failure(kind: ErrorKind, cause: String) -> Error {
        Error { kind, cause: Some(cause) }
    }

    /// A failure that nothing outside led to.
    pub fn new(kind: ErrorKind) -> (res: Error)
        ensures
            res == Error::refusal(kind),
            res.kind == kind,
            res.cause is None,
    {
        Error { kind, cause: None }
    }

    /// A failure that `cause` led to.
    pub fn with_chain(cause: String, kind: ErrorKind) -> (res: Error)
        ensures
            res == Error::failure(kind, cause),
            res.kind == kind,
            res.cause == Some(cause),
    {
        Error { kind, cause: Some(cause) }
    }
}

/// A failure that has no more than a message is told by that message. A missing tag is told
/// with its name, and a rejected header with the reason. The other kinds each have one
/// text, whatever led to them.
pub proof fn law_failures_are_told_in_words(text: &'static str, tag: &'static str, reason: String)
    ensures
        ErrorKind::Msg(text).message_spec() == text@,
        ErrorKind::Msg(text).description_spec() == text@,
        ErrorKind::NoTag(tag).message_spec() == "Tag '"@ + tag@ + "' not found in the storage"@,
        ErrorKind::NoTag(tag).description_spec() == "Missing tag from the storage"@,
        ErrorKind::BLockHeaderVerificationFail(reason).message_spec()
            == "The block header verification failed: "@ + reason@,
        ErrorKind::BLockHeaderVerificationFail(reason).description_spec()
            == "Block header verification failed"@,
        ErrorKind::Block0InitialLedgerError.message_spec()
            == "Error while creating the initial ledger out of the block0"@,
        ErrorKind::Block0AlreadyInStorage.message_spec() == "Block0 already exists in the storage"@,
        ErrorKind::Block0NotAlreadyInStorage.message_spec()
            == "Block0 already is not yet in the storage"@,
        ErrorKind::CannotApplyBlock.message_spec()
            == "Block cannot be applied on top of the previous block's ledger state"@,
{
}

/// A failure keeps its kind, and the outside failure that led to it, if one did.
pub proof fn law_failures_keep_kind_and_cause(kind: ErrorKind, cause: String)
    ensures
        Error::refusal(kind).kind == kind,
        Error::refusal(kind).cause is None,
        Error::failure(kind, cause).kind == kind,
        Error::failure(kind, cause).cause == Some(cause),
{
}

} // verus!
