//! The concrete types that the runtime configures its modules with.

use vstd::prelude::*;

verus! {

pub type AccountId = String;

pub type Balance = u128;

pub type BlockNumber = u32;

pub type Nonce = u32;

pub type Content = &'static str;

pub type Extrinsic = crate::support::Extrinsic<AccountId, crate::runtime::RuntimeCall>;

pub type Header = crate::support::Header<BlockNumber>;

pub type Block = crate::support::Block<Header, Extrinsic>;

pub type ExtrinsicFailure = crate::support::ExtrinsicFailure<BlockNumber>;

} // verus!
