//! The block model and the dispatch seam: plain data that describes a block of
//! extrinsics, and the capability that routes a call to the module that
//! carries it out.

use vstd::prelude::*;

verus! {

/// A block: a header and the extrinsics to execute, in order.
#[derive(Debug)]
pub struct Block<Header, Extrinsic> {
    pub header: Header,
    pub extrinsics: Vec<Extrinsic>,
}

/// A block header: the number that the block claims for itself.
#[derive(Debug)]
pub struct Header<BlockNumber> {
    pub block_number: BlockNumber,
}

/// An extrinsic: a call together with the account that authored it.
#[derive(Debug)]
pub struct Extrinsic<Caller, Call> {
    pub caller: Caller,
    pub call: Call,
}

impl<Caller: View, Call: View> View for Extrinsic<Caller, Call> {
    type V = Extrinsic<Caller::V, Call::V>;

    open spec fn view(&self) -> Self::V {
        Extrinsic { caller: self.caller@, call: self.call@ }
    }
}

/// What executing a call yields: nothing, or the reason for its rejection.
pub type DispatchResult<T> = Result<(), T>;

/// The capability of routing a call, on behalf of a caller, to the module
/// that carries it out.
pub trait Dispatch {
    /// Who may author calls.
    type Caller;

    /// The calls that can be routed.
    type Call;

    /// Why a call of this family can be rejected.
    type Error;

    /// Carries out `call` on behalf of `caller`.
    fn dispatch(&mut self, caller: Self::Caller, call: Self::Call) -> DispatchResult<Self::Error>;
}

} // verus!
