//! A ledger-and-block-execution engine: an account-balance ledger and a
//! block/nonce counter, composed by a runtime that executes blocks of
//! extrinsics against them.
//!
//! The engine is a deterministic state-transition function over in-memory
//! state. Every operation is specified over a mathematical model of that
//! state: the block number is a natural number, and nonces and balances are
//! finite maps from account identities to natural numbers.
//!
//! - [`numeric`]: the checked scalars that counters and balances are made of.
//! - [`accounts`]: account identifiers and the store of per-account values.
//! - [`balances`]: the ledger, with atomic and overflow-safe transfers.
//! - [`system`]: the block number and the nonces.
//! - [`support`]: the block model and the dispatch seam.
//! - [`types`]: the concrete types of the runtime.
//!
//! The [`Runtime`] itself executes a block in two tiers: a block number that
//! cannot be advanced is fatal to the block, while an extrinsic that fails is
//! reported and the block goes on.

pub mod accounts;
pub mod balances;
pub mod numeric;
pub mod support;
pub mod system;
pub mod types;

use crate::balances::{
    lemma_transfer_conserves_total, total_balance, transfer_outcome, TransferError,
};
use crate::numeric::Scalar;
use crate::support::{Dispatch, DispatchResult, Extrinsic};
use crate::system::{block_advance, nonce_advance, nonce_of, SystemError, SystemState};
use vstd::prelude::*;

verus! {

/// The calls that the runtime can carry out.
#[derive(Debug)]
pub enum RuntimeCall {
    /// Move `amount` from the caller to `to`.
    Transfer { to: types::AccountId, amount: types::Balance },
}

/// A call as a mathematical value.
pub enum CallView {
    /// Move `amount` from the caller to the account `to`.
    Transfer { to: Seq<char>, amount: nat },
}

impl View for RuntimeCall {
    type V = CallView;

    open spec fn view(&self) -> CallView {
        match self {
            RuntimeCall::Transfer { to, amount } => CallView::Transfer {
                to: to@,
                amount: *amount as nat,
            },
        }
    }
}

/// The runtime: the system state and the ledger.
#[derive(Debug)]
pub struct Runtime {
    pub system: system::Pallet<types::RuntimeConfig>,
    pub balances: balances::Pallet<types::RuntimeConfig>,
}

/// The state of the runtime as a mathematical value.
#[verifier::ext_equal]
pub struct RuntimeState {
    pub system: SystemState<Seq<char>>,
    pub balances: Map<Seq<char>, nat>,
}

impl View for Runtime {
    type V = RuntimeState;

    open spec fn view(&self) -> RuntimeState {
        RuntimeState { system: self.system@, balances: self.balances@ }
    }
}

/// Why an extrinsic did not take effect.
#[derive(Debug, Clone, Copy, PartialEq, Eq, Structural)]
pub enum ExtrinsicError {
    /// The caller's nonce could not be advanced; the call was not dispatched.
    Nonce(SystemError),
    /// The call was dispatched and rejected.
    Dispatch(TransferError),
}

/// What dispatching `call` on behalf of `caller` does to the ledger: the new
/// ledger, or the reason for which the call is rejected.
pub open spec fn dispatch_outcome(
    balances: Map<Seq<char>, nat>,
    caller: Seq<char>,
    call: CallView,
) -> Result<Map<Seq<char>, nat>, TransferError> {
    match call {
        CallView::Transfer { to, amount } => transfer_outcome(
            balances,
            caller,
            to,
            amount,
            <types::Balance as Scalar>::max_value(),
        ),
    }
}

/// The state after one extrinsic.
///
/// The caller's nonce is advanced first. If that fails, nothing changes and
/// the call is not dispatched. Otherwise the call is dispatched; if it is
/// rejected, the advanced nonce stays and the ledger is as it was.
pub open spec fn state_after_extrinsic(
    state: RuntimeState,
    extrinsic: Extrinsic<Seq<char>, CallView>,
) -> RuntimeState {
    match nonce_advance(state.system, extrinsic.caller, <types::Nonce as Scalar>::max_value()) {
        Err(_) => state,
        Ok(system) => match dispatch_outcome(state.balances, extrinsic.caller, extrinsic.call) {
            Ok(balances) => RuntimeState { system, balances },
            Err(_) => RuntimeState { system, balances: state.balances },
        },
    }
}

/// What one extrinsic reports: success, or why it did not take effect.
pub open spec fn result_of_extrinsic(
    state: RuntimeState,
    extrinsic: Extrinsic<Seq<char>, CallView>,
) -> DispatchResult<ExtrinsicError> {
    match nonce_advance(state.system, extrinsic.caller, <types::Nonce as Scalar>::max_value()) {
        Err(error) => Err(ExtrinsicError::Nonce(error)),
        Ok(_) => match dispatch_outcome(state.balances, extrinsic.caller, extrinsic.call) {
            Ok(_) => Ok(()),
            Err(error) => Err(ExtrinsicError::Dispatch(error)),
        },
    }
}

/// The state after a sequence of extrinsics, each applied in order to the
/// state that the one before it left, whether or not that one succeeded.
pub open spec fn state_after_extrinsics(
    state: RuntimeState,
    extrinsics: Seq<Extrinsic<Seq<char>, CallView>>,
) -> RuntimeState
    decreases extrinsics.len(),
{
    if extrinsics.len() == 0 {
        state
    } else {
        state_after_extrinsic(
            state_after_extrinsics(state, extrinsics.drop_last()),
            extrinsics.last(),
        )
    }
}

/// What each extrinsic of a sequence reports, in order.
pub open spec fn results_of_extrinsics(
    state: RuntimeState,
    extrinsics: Seq<Extrinsic<Seq<char>, CallView>>,
) -> Seq<DispatchResult<ExtrinsicError>> {
    Seq::new(
        extrinsics.len(),
        |i: int|
            result_of_extrinsic(state_after_extrinsics(state, extrinsics.take(i)), extrinsics[i]),
    )
}

/// The state in which the extrinsics of a block are executed: `state` with
/// the block number raised by 1, or an overflow of the block number.
pub open spec fn block_start(state: RuntimeState) -> Result<RuntimeState, SystemError> {
    match block_advance(state.system, <types::BlockNumber as Scalar>::max_value()) {
        Ok(system) => Ok(RuntimeState { system, balances: state.balances }),
        Err(error) => Err(error),
    }
}

/// What executing a block with the given extrinsics does to `state`: the
/// block number is raised by 1 and every extrinsic is applied in order, or
/// the block number overflows and the block is not executed at all.
pub open spec fn block_outcome(
    state: RuntimeState,
    extrinsics: Seq<Extrinsic<Seq<char>, CallView>>,
) -> Result<RuntimeState, SystemError> {
    match block_start(state) {
        Ok(start) => Ok(state_after_extrinsics(start, extrinsics)),
        Err(error) => Err(error),
    }
}

/// The extrinsics of a block as mathematical values, in order.
pub open spec fn extrinsic_views(extrinsics: Seq<types::Extrinsic>) -> Seq<
    Extrinsic<Seq<char>, CallView>,
> {
    extrinsics.map_values(|extrinsic: types::Extrinsic| extrinsic@)
}

impl Dispatch for Runtime {
    type Caller = types::AccountId;

    type Call = RuntimeCall;

    type Error = TransferError;

    /// Routes `call` to the module that carries it out: a transfer goes to
    /// the ledger, with the caller as the sender.
    fn dispatch(&mut self, caller: Self::Caller, call: Self::Call) -> (result: DispatchResult<
        TransferError,
    >)
        ensures
            final(self)@.system == old(self)@.system,
            match dispatch_outcome(old(self)@.balances, caller@, call@) {
                Ok(balances) => result is Ok && final(self)@.balances == balances,
                Err(error) => result == Err::<(), TransferError>(error) && final(self)@.balances
                    == old(self)@.balances,
            },
    {
        match call {
            RuntimeCall::Transfer { to, amount } => self.balances.transfer(&caller, &to, amount),
        }
    }
}

impl Runtime {
    /// The runtime before any block: block number 0, no nonce, no balance.
    pub fn new() -> (runtime: Self)
        ensures
            runtime@ == (RuntimeState {
                system: SystemState { block_number: 0, nonces: Map::empty() },
                balances: Map::empty(),
            }),
    {
        Runtime { system: system::Pallet::new(), balances: balances::Pallet::new() }
    }

    /// Executes one extrinsic: advances the caller's nonce and, if that
    /// succeeded, dispatches the call.
    pub fn apply_extrinsic(&mut self, extrinsic: types::Extrinsic) -> (result: DispatchResult<
        ExtrinsicError,
    >)
        ensures
            final(self)@ == state_after_extrinsic(old(self)@, extrinsic@),
            result == result_of_extrinsic(old(self)@, extrinsic@),
    {
        let Extrinsic { caller, call } = extrinsic;
        match self.system.inc_nonce(&caller) {
            Err(error) => Err(ExtrinsicError::Nonce(error)),
            Ok(()) => match self.dispatch(caller, call) {
                Ok(()) => Ok(()),
                Err(error) => Err(ExtrinsicError::Dispatch(error)),
            },
        }
    }

    /// Executes a block and reports what became of each extrinsic.
    ///
    /// The block number is raised by 1 first; if it overflows, nothing is
    /// executed and the overflow is returned. Then every extrinsic is
    /// executed in order. An extrinsic that fails is reported at its position
    /// and does not keep the later ones from being executed.
    ///
    /// The number in the block's header is not compared with the runtime's
    /// own block number.
    pub fn execute_block_reporting(&mut self, block: types::Block) -> (result: Result<
        Vec<DispatchResult<ExtrinsicError>>,
        SystemError,
    >)
        ensures
            match block_start(old(self)@) {
                Ok(start) => {
                    &&& final(self)@ == state_after_extrinsics(
                        start,
                        extrinsic_views(block.extrinsics@),
                    )
                    &&& result is Ok
                    &&& result->Ok_0@ == results_of_extrinsics(
                        start,
                        extrinsic_views(block.extrinsics@),
                    )
                    &&& result->Ok_0@.len() == block.extrinsics@.len()
                },
                Err(error) => result == Err::<Vec<DispatchResult<ExtrinsicError>>, SystemError>(
                    error,
                ) && final(self)@ == old(self)@,
            },
    {
        match self.system.inc_block_number() {
            Ok(()) => {},
            Err(error) => {
                return Err(error);
            },
        }
        let ghost start = self@;
        let ghost extrinsics = extrinsic_views(block.extrinsics@);
        let mut results: Vec<DispatchResult<ExtrinsicError>> = Vec::new();
        for extrinsic in it: block.extrinsics.into_iter()
            invariant
                it.seq() == block.extrinsics@,
                extrinsics == extrinsic_views(block.extrinsics@),
                self@ == state_after_extrinsics(start, extrinsics.take(it.index() as int)),
                results@ == results_of_extrinsics(start, extrinsics.take(it.index() as int)),
        {
            proof {
                lemma_one_more_extrinsic(start, extrinsics, it.index() as int);
            }
            let result = self.apply_extrinsic(extrinsic);
            results.push(result);
        }
        proof {
            assert(extrinsics.take(extrinsics.len() as int) == extrinsics);
        }
        Ok(results)
    }

    /// Executes a block: raises the block number by 1, then executes every
    /// extrinsic in order, going on after one that fails.
    ///
    /// The result tells whether the block number could be raised, not
    /// whether every extrinsic succeeded. If the block number overflows,
    /// nothing is executed and the runtime is as it was. Whatever the
    /// extrinsics do, a block that is executed raises the block number by
    /// exactly 1, conserves the sum of all balances and lowers no nonce.
    ///
    /// The number in the block's header is not compared with the runtime's
    /// own block number.
    pub fn execute_block(&mut self, block: types::Block) -> (result: DispatchResult<SystemError>)
        ensures
            match block_outcome(old(self)@, extrinsic_views(block.extrinsics@)) {
                Ok(state) => result is Ok && final(self)@ == state,
                Err(error) => result == Err::<(), SystemError>(error) && final(self)@ == old(
                    self,
                )@,
            },
            result is Ok ==> final(self)@.system.block_number == old(self)@.system.block_number
                + 1,
            result is Err ==> result == Err::<(), SystemError>(SystemError::BlockNumberOverflow),
            result is Err <==> old(self)@.system.block_number
                == <types::BlockNumber as Scalar>::max_value(),
            total_balance(final(self)@.balances) == total_balance(old(self)@.balances),
            forall|who: Seq<char>|
                nonce_of(final(self)@.system.nonces, who) >= nonce_of(
                    old(self)@.system.nonces,
                    who,
                ),
    {
        let ghost before = self@;
        let ghost extrinsics = extrinsic_views(block.extrinsics@);
        proof {
            self.system.lemma_representable();
            self.balances.lemma_representable();
        }
        let result = match self.execute_block_reporting(block) {
            Ok(_) => Ok(()),
            Err(error) => Err(error),
        };
        proof {
            if block_start(before) is Ok {
                let start = block_start(before)->Ok_0;
                lemma_extrinsics_keep_block_number(start, extrinsics);
                lemma_extrinsics_conserve_total(start, extrinsics);
                assert forall|who: Seq<char>|
                    nonce_of(self@.system.nonces, who) >= nonce_of(before.system.nonces, who) by {
                    lemma_extrinsics_never_lower_nonces(start, extrinsics, who);
                }
            }
        }
        result
    }
}

/// How many of the extrinsics `who` authored.
pub open spec fn authored_by(
    extrinsics: Seq<Extrinsic<Seq<char>, CallView>>,
    who: Seq<char>,
) -> nat
    decreases extrinsics.len(),
{
    if extrinsics.len() == 0 {
        0
    } else if extrinsics.last().caller == who {
        authored_by(extrinsics.drop_last(), who) + 1
    } else {
        authored_by(extrinsics.drop_last(), who)
    }
}

/// Each extrinsic raises the nonce of its author by exactly 1, whether its
/// call succeeds or is rejected: as long as the nonce stays representable, an
/// account's nonce after a sequence of extrinsics is its nonce before plus
/// the number of extrinsics that it authored.
pub proof fn lemma_nonce_counts_authored_extrinsics(
    state: RuntimeState,
    extrinsics: Seq<Extrinsic<Seq<char>, CallView>>,
    who: Seq<char>,
)
    requires
        nonce_of(state.system.nonces, who) + authored_by(extrinsics, who)
            <= <types::Nonce as Scalar>::max_value(),
    ensures
        nonce_of(state_after_extrinsics(state, extrinsics).system.nonces, who) == nonce_of(
            state.system.nonces,
            who,
        ) + authored_by(extrinsics, who),
    decreases extrinsics.len(),
{
    if extrinsics.len() > 0 {
        lemma_nonce_counts_authored_extrinsics(state, extrinsics.drop_last(), who);
    }
}

/// Extrinsics never lower a nonce.
pub proof fn lemma_extrinsics_never_lower_nonces(
    state: RuntimeState,
    extrinsics: Seq<Extrinsic<Seq<char>, CallView>>,
    who: Seq<char>,
)
    ensures
        nonce_of(state_after_extrinsics(state, extrinsics).system.nonces, who) >= nonce_of(
            state.system.nonces,
            who,
        ),
    decreases extrinsics.len(),
{
    if extrinsics.len() > 0 {
        lemma_extrinsics_never_lower_nonces(state, extrinsics.drop_last(), who);
    }
}

/// Extrinsics conserve the sum of all balances, whether they succeed or
/// fail.
pub proof fn lemma_extrinsics_conserve_total(
    state: RuntimeState,
    extrinsics: Seq<Extrinsic<Seq<char>, CallView>>,
)
    requires
        state.balances.dom().finite(),
    ensures
        state_after_extrinsics(state, extrinsics).balances.dom().finite(),
        total_balance(state_after_extrinsics(state, extrinsics).balances) == total_balance(
            state.balances,
        ),
    decreases extrinsics.len(),
{
    if extrinsics.len() > 0 {
        lemma_extrinsics_conserve_total(state, extrinsics.drop_last());
        let before = state_after_extrinsics(state, extrinsics.drop_last());
        let extrinsic = extrinsics.last();
        match extrinsic.call {
            CallView::Transfer { to, amount } => {
                if transfer_outcome(
                    before.balances,
                    extrinsic.caller,
                    to,
                    amount,
                    <types::Balance as Scalar>::max_value(),
                ) is Ok {
                    lemma_transfer_conserves_total(
                        before.balances,
                        extrinsic.caller,
                        to,
                        amount,
                        <types::Balance as Scalar>::max_value(),
                    );
                }
            },
        }
    }
}

/// Extrinsics never change the block number, whether they succeed or fail.
pub proof fn lemma_extrinsics_keep_block_number(
    state: RuntimeState,
    extrinsics: Seq<Extrinsic<Seq<char>, CallView>>,
)
    ensures
        state_after_extrinsics(state, extrinsics).system.block_number == state.system.block_number,
    decreases extrinsics.len(),
{
    if extrinsics.len() > 0 {
        lemma_extrinsics_keep_block_number(state, extrinsics.drop_last());
    }
}

/// Executing the first `i + 1` extrinsics is executing the first `i` and then
/// the one at position `i`.
proof fn lemma_one_more_extrinsic(
    start: RuntimeState,
    extrinsics: Seq<Extrinsic<Seq<char>, CallView>>,
    i: int,
)
    requires
        0 <= i < extrinsics.len(),
    ensures
        state_after_extrinsics(start, extrinsics.take(i + 1)) == state_after_extrinsic(
            state_after_extrinsics(start, extrinsics.take(i)),
            extrinsics[i],
        ),
        results_of_extrinsics(start, extrinsics.take(i + 1)) == results_of_extrinsics(
            start,
            extrinsics.take(i),
        ).push(
            result_of_extrinsic(state_after_extrinsics(start, extrinsics.take(i)), extrinsics[i]),
        ),
{
    let shorter = extrinsics.take(i);
    let longer = extrinsics.take(i + 1);
    assert(longer.drop_last() == shorter);
    assert(forall|j: int| 0 <= j <= i ==> #[trigger] longer.take(j) == extrinsics.take(j));
    assert(forall|j: int| 0 <= j < i ==> #[trigger] shorter.take(j) == extrinsics.take(j));
    assert(results_of_extrinsics(start, longer) == results_of_extrinsics(start, shorter).push(
        result_of_extrinsic(state_after_extrinsics(start, shorter), extrinsics[i]),
    ));
}

} // verus!
