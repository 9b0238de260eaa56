use vstd::prelude::*;

verus! {

/// Why a single operation was refused. The state is left as it was.
#[derive(Debug, Clone, Copy, PartialEq, Eq, Structural)]
pub enum DispatchError {
    /// The sender holds less than the amount to move.
    InsufficientFunds,
    /// A balance would leave the range of its type.
    ArithmeticOverflow,
    /// The content already has an owner.
    AlreadyClaimed,
    /// The content has no owner.
    NoSuchClaim,
    /// The caller does not own the content.
    NotOwner,
    /// The caller's nonce is at its largest value, so the operation cannot take
    /// an ordering slot and is not dispatched.
    NonceOverflow,
}

/// The outcome of one operation.
pub type DispatchResult = Result<(), DispatchError>;

/// Why a whole block was refused.
#[derive(Debug, Clone, Copy, PartialEq, Eq, Structural)]
pub enum ExecutionError {
    /// The header does not carry the block number that comes next.
    BlockNumberMismatch,
}

/// An operation of a block that failed, with its position in the block.
#[derive(Debug, Clone, Copy, PartialEq, Eq, Structural)]
pub struct ExtrinsicError {
    pub index: usize,
    pub error: DispatchError,
}

/// The header of a block: the height it claims.
#[derive(Debug)]
pub struct Header<BlockNumber> {
    pub block_number: BlockNumber,
}

/// An operation together with the account it is performed for.
#[derive(Debug)]
pub struct Extrinsic<Caller, Call> {
    pub caller: Caller,
    pub call: Call,
}

/// A header and the operations of a block, in the order they run.
#[derive(Debug)]
pub struct Block<Header, Extrinsic> {
    pub header: Header,
    pub extrinsics: Vec<Extrinsic>,
}

} // verus!
