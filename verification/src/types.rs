//! The concrete types that the runtime is built over.

use vstd::prelude::*;

verus! {

/// Accounts are named by strings.
pub type AccountId = String;

/// Balances are 128-bit unsigned integers.
pub type Balance = u128;

/// Block numbers are 32-bit unsigned integers.
pub type BlockNumber = u32;

/// Nonces are 32-bit unsigned integers.
pub type Nonce = u32;

/// An extrinsic of the runtime.
pub type Extrinsic = crate::support::Extrinsic<AccountId, crate::RuntimeCall>;

/// A block header of the runtime.
pub type Header = crate::support::Header<BlockNumber>;

/// A block of the runtime.
pub type Block = crate::support::Block<Header, Extrinsic>;

/// The configuration of the runtime: it binds the types above to both state
/// modules, once.
#[derive(Debug)]
pub struct RuntimeConfig;

impl crate::system::Config for RuntimeConfig {
    type AccountId = AccountId;

    type BlockNumber = BlockNumber;

    type Nonce = Nonce;
}

impl crate::balances::Config for RuntimeConfig {
    type AccountId = AccountId;

    type Balance = Balance;
}

} // verus!
