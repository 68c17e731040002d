//! The system module: the current block number and a nonce for each account,
//! both advanced in unit steps with overflow detection.

use crate::accounts::{AccountKey, AccountMap};
use crate::numeric::{Counter, Scalar};
use vstd::prelude::*;

verus! {

/// The types that the system state is built over.
pub trait Config {
    /// How accounts are named.
    type AccountId: AccountKey;

    /// How block numbers are represented.
    type BlockNumber: Counter;

    /// How nonces are represented.
    type Nonce: Counter;
}

/// Why a counter could not be advanced.
#[derive(Debug, Clone, Copy, PartialEq, Eq, Structural)]
pub enum SystemError {
    /// The block number is already the largest representable one.
    BlockNumberOverflow,
    /// The account's nonce is already the largest representable one.
    NonceOverflow,
}

/// The system state as a mathematical value: the block number and the nonce
/// of each account. An account that `nonces` does not hold has nonce 0.
#[verifier::ext_equal]
#[verifier::reject_recursive_types(A)]
pub struct SystemState<A> {
    pub block_number: nat,
    pub nonces: Map<A, nat>,
}

/// The nonce of `who` in `nonces`: what the map holds for the account, and 0
/// for an account it does not hold.
pub open spec fn nonce_of<A>(nonces: Map<A, nat>, who: A) -> nat {
    if nonces.contains_key(who) {
        nonces[who]
    } else {
        0
    }
}

/// What advancing the block number does to `state`, where `max` is the
/// largest representable block number: the state with the block number
/// raised by 1, or an overflow at `max`.
pub open spec fn block_advance<A>(state: SystemState<A>, max: nat) -> Result<
    SystemState<A>,
    SystemError,
> {
    if state.block_number < max {
        Ok(SystemState { block_number: state.block_number + 1, nonces: state.nonces })
    } else {
        Err(SystemError::BlockNumberOverflow)
    }
}

/// What advancing the nonce of `who` does to `state`, where `max` is the
/// largest representable nonce: the state with that one nonce raised by 1, or
/// an overflow at `max`.
pub open spec fn nonce_advance<A>(state: SystemState<A>, who: A, max: nat) -> Result<
    SystemState<A>,
    SystemError,
> {
    if nonce_of(state.nonces, who) < max {
        Ok(
            SystemState {
                block_number: state.block_number,
                nonces: state.nonces.insert(who, nonce_of(state.nonces, who) + 1),
            },
        )
    } else {
        Err(SystemError::NonceOverflow)
    }
}

/// The state after `calls` calls that each try to advance the block number:
/// a call that overflows leaves the state as it was.
pub open spec fn after_block_advances<A>(
    state: SystemState<A>,
    calls: nat,
    max: nat,
) -> SystemState<A>
    decreases calls,
{
    if calls == 0 {
        state
    } else {
        let before = after_block_advances(state, (calls - 1) as nat, max);
        match block_advance(before, max) {
            Ok(next) => next,
            Err(_) => before,
        }
    }
}

/// The state after `calls` calls that each try to advance the nonce of `who`:
/// a call that overflows leaves the state as it was.
pub open spec fn after_nonce_advances<A>(
    state: SystemState<A>,
    who: A,
    calls: nat,
    max: nat,
) -> SystemState<A>
    decreases calls,
{
    if calls == 0 {
        state
    } else {
        let before = after_nonce_advances(state, who, (calls - 1) as nat, max);
        match nonce_advance(before, who, max) {
            Ok(next) => next,
            Err(_) => before,
        }
    }
}

/// Advancing the block number `calls` times raises it by `calls`, but not
/// beyond the largest representable number: there every further call fails
/// and changes nothing. From 0, the block number after `calls` calls is
/// `calls`, up to `max`. No nonce is affected.
pub proof fn lemma_block_number_counts_calls<A>(state: SystemState<A>, calls: nat, max: nat)
    requires
        state.block_number <= max,
    ensures
        after_block_advances(state, calls, max).block_number == (if state.block_number + calls
            <= max {
            state.block_number + calls
        } else {
            max
        }),
        after_block_advances(state, calls, max).nonces == state.nonces,
        state.block_number + calls >= max ==> block_advance(
            after_block_advances(state, calls, max),
            max,
        ) == Err::<SystemState<A>, SystemError>(SystemError::BlockNumberOverflow),
    decreases calls,
{
    if calls > 0 {
        lemma_block_number_counts_calls(state, (calls - 1) as nat, max);
    }
}

/// Advancing the nonce of `who` `calls` times raises it by `calls`, as long
/// as the result is representable: from 0, the nonce after `calls` calls is
/// `calls`. The nonce of every other account and the block number are not
/// affected.
pub proof fn lemma_nonce_counts_calls<A>(state: SystemState<A>, who: A, calls: nat, max: nat)
    requires
        nonce_of(state.nonces, who) + calls <= max,
    ensures
        nonce_of(after_nonce_advances(state, who, calls, max).nonces, who) == nonce_of(
            state.nonces,
            who,
        ) + calls,
        forall|other: A|
            other != who ==> nonce_of(
                after_nonce_advances(state, who, calls, max).nonces,
                other,
            ) == nonce_of(state.nonces, other),
        after_nonce_advances(state, who, calls, max).block_number == state.block_number,
    decreases calls,
{
    if calls > 0 {
        lemma_nonce_counts_calls(state, who, (calls - 1) as nat, max);
    }
}

/// The system state: the current block number and the nonce of each account.
#[derive(Debug)]
pub struct Pallet<T: Config> {
    block_number: T::BlockNumber,
    nonce: AccountMap<T::AccountId, T::Nonce>,
}

impl<T: Config> View for Pallet<T> {
    type V = SystemState<<T::AccountId as View>::V>;

    closed spec fn view(&self) -> Self::V {
        SystemState {
            block_number: self.block_number.value(),
            nonces: self.nonce@.map_values(|nonce: T::Nonce| nonce.value()),
        }
    }
}

impl<T: Config> Pallet<T> {
    /// The block number and every nonce are representable, and nonces are
    /// recorded for finitely many accounts.
    pub proof fn lemma_representable(&self)
        ensures
            self@.block_number <= T::BlockNumber::max_value(),
            self@.nonces.dom().finite(),
            forall|who: <T::AccountId as View>::V|
                #[trigger] nonce_of(self@.nonces, who) <= T::Nonce::max_value(),
    {
        self.block_number.lemma_value_in_range();
        self.nonce.lemma_finite();
        assert(self@.nonces.dom() == self.nonce@.dom());
        assert forall|who: <T::AccountId as View>::V| #[trigger]
            nonce_of(self@.nonces, who) <= T::Nonce::max_value() by {
            if self@.nonces.contains_key(who) {
                self.nonce@[who].lemma_value_in_range();
            }
        }
    }

    /// The state before any block: block number 0, and no nonce recorded.
    pub fn new() -> (pallet: Self)
        ensures
            pallet@ == (SystemState {
                block_number: 0,
                nonces: Map::<<T::AccountId as View>::V, nat>::empty(),
            }),
    {
        Pallet { block_number: T::BlockNumber::zero(), nonce: AccountMap::new() }
    }

    /// The current block number.
    pub fn block_number(&self) -> (number: T::BlockNumber)
        ensures
            number.value() == self@.block_number,
    {
        self.block_number
    }

    /// Raises the block number by 1, or reports an overflow and leaves the
    /// state as it was.
    pub fn inc_block_number(&mut self) -> (result: Result<(), SystemError>)
        ensures
            match block_advance(old(self)@, T::BlockNumber::max_value()) {
                Ok(state) => result is Ok && final(self)@ == state,
                Err(error) => result == Err::<(), SystemError>(error) && final(self)@ == old(
                    self,
                )@,
            },
            result is Err <==> old(self)@.block_number == T::BlockNumber::max_value(),
            result is Ok ==> final(self)@.block_number == old(self)@.block_number + 1,
            final(self)@.nonces == old(self)@.nonces,
    {
        proof {
            self.block_number.lemma_value_in_range();
        }
        match self.block_number.checked_add(&T::BlockNumber::one()) {
            Some(next) => {
                proof {
                    next.lemma_value_in_range();
                }
                self.block_number = next;
                Ok(())
            },
            None => Err(SystemError::BlockNumberOverflow),
        }
    }

    /// The nonce of `who`: 0 for an account that was never seen.
    pub fn nonce(&self, who: &T::AccountId) -> (nonce: T::Nonce)
        ensures
            nonce.value() == nonce_of(self@.nonces, who@),
    {
        match self.nonce.get(who) {
            Some(nonce) => nonce,
            None => T::Nonce::zero(),
        }
    }

    /// Raises the nonce of `who` by 1, or reports an overflow and leaves the
    /// state as it was.
    pub fn inc_nonce(&mut self, who: &T::AccountId) -> (result: Result<(), SystemError>)
        ensures
            match nonce_advance(old(self)@, who@, T::Nonce::max_value()) {
                Ok(state) => result is Ok && final(self)@ == state,
                Err(error) => result == Err::<(), SystemError>(error) && final(self)@ == old(
                    self,
                )@,
            },
            result is Err <==> nonce_of(old(self)@.nonces, who@) == T::Nonce::max_value(),
            result is Ok ==> nonce_of(final(self)@.nonces, who@) == nonce_of(
                old(self)@.nonces,
                who@,
            ) + 1,
            final(self)@.block_number == old(self)@.block_number,
            forall|other: <T::AccountId as View>::V|
                other != who@ ==> nonce_of(final(self)@.nonces, other) == nonce_of(
                    old(self)@.nonces,
                    other,
                ),
    {
        let nonce = self.nonce(who);
        proof {
            nonce.lemma_value_in_range();
        }
        match nonce.checked_add(&T::Nonce::one()) {
            Some(new_nonce) => {
                proof {
                    new_nonce.lemma_value_in_range();
                }
                self.nonce.insert(who, new_nonce);
                Ok(())
            },
            None => Err(SystemError::NonceOverflow),
        }
    }

    /// Sets the nonce of `who` to `nonce`, whatever it was before.
    pub fn set_nonce(&mut self, who: &T::AccountId, nonce: T::Nonce)
        ensures
            final(self)@ == (SystemState {
                block_number: old(self)@.block_number,
                nonces: old(self)@.nonces.insert(who@, nonce.value()),
            }),
    {
        self.nonce.insert(who, nonce);
    }

    /// Sets the block number to `block_number`, whatever it was before.
    pub fn set_block_number(&mut self, block_number: T::BlockNumber)
        ensures
            final(self)@ == (SystemState {
                block_number: block_number.value(),
                nonces: old(self)@.nonces,
            }),
    {
        self.block_number = block_number;
    }
}

} // verus!
