//! What every module and the runtime share: the shape of a block, the
//! failures a call can end in, and the trait through which calls are routed.

use vstd::prelude::*;

verus! {

/// A block: a header and the extrinsics to apply, in order.
pub struct Block<Header, Extrinsic> {
    pub header: Header,
    pub extrinsics: Vec<Extrinsic>,
}

/// The header of a block. It carries nothing but the block's number.
pub struct Header<BlockNumber> {
    pub block_number: BlockNumber,
}

/// A call submitted from outside, together with who submitted it.
pub struct Extrinsic<Caller, Call> {
    pub caller: Caller,
    pub call: Call,
}

/// The record of an extrinsic that failed: in which block, at which place
/// among the block's extrinsics, and why.
#[derive(Debug, PartialEq, Eq)]
pub struct ExtrinsicFailure<BlockNumber> {
    pub block_number: BlockNumber,
    pub extrinsic_index: usize,
    pub error: DispatchError,
}

/// Every way a call or a block can fail.
#[derive(Clone, Copy, Debug, PartialEq, Eq, Structural)]
pub enum DispatchError {
    /// The sender of a transfer holds less than the amount.
    InsufficientBalance,
    /// Crediting the receiver of a transfer would pass the largest balance.
    Overflow,
    /// The content already has an owner.
    AlreadyClaimed,
    /// The content has no owner.
    ClaimNotFound,
    /// The content is owned by another account than the caller.
    NotClaimOwner,
    /// The block's number is not the one that comes next.
    InvalidBlockNumber,
}

/// The outcome of a call: done, or the reason it was refused.
pub type DispatchResult = Result<(), DispatchError>;

impl DispatchError {
    /// The text of `message`.
    pub open spec fn text(self) -> Seq<char> {
        match self {
            DispatchError::InsufficientBalance => "Not enough funds."@,
            DispatchError::Overflow => "Overflow"@,
            DispatchError::AlreadyClaimed => "This content is already claimed."@,
            DispatchError::ClaimNotFound => "claim does not exist"@,
            DispatchError::NotClaimOwner => "This content is owned by another account"@,
            DispatchError::InvalidBlockNumber => "Block number does not match what is expected"@,
        }
    }

    /// A line of text that describes the failure.
    pub fn message(&self) -> (r: &'static str)
        ensures
            r@ == self.text(),
    {
        match self {
            DispatchError::InsufficientBalance => "Not enough funds.",
            DispatchError::Overflow => "Overflow",
            DispatchError::AlreadyClaimed => "This content is already claimed.",
            DispatchError::ClaimNotFound => "claim does not exist",
            DispatchError::NotClaimOwner => "This content is owned by another account",
            DispatchError::InvalidBlockNumber => "Block number does not match what is expected",
        }
    }
}

/// Something that calls can be routed to: given who calls and what they
/// call, it carries the call out on its own state. What a call does is
/// stated by each implementation.
pub trait Dispatch {
    /// Who makes a call.
    type Caller;

    /// What can be called.
    type Call;

    /// Carries out `call` on behalf of `caller`.
    fn dispatch(&mut self, caller: Self::Caller, call: Self::Call) -> DispatchResult;
}

} // verus!
