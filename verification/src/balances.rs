//! The balances module: an account-balance ledger with atomic,
//! overflow-safe transfers.
//!
//! The ledger is modelled as a finite map from account identities to natural
//! numbers. An account that the map does not hold has balance 0.

use crate::accounts::{AccountKey, AccountMap};
use crate::numeric::{Amount, Scalar};
use vstd::prelude::*;

verus! {

/// The types that a ledger is built over.
pub trait Config {
    /// How accounts are named.
    type AccountId: AccountKey;

    /// How balances are represented.
    type Balance: Amount;
}

/// Why a transfer was rejected.
#[derive(Debug, Clone, Copy, PartialEq, Eq, Structural)]
pub enum TransferError {
    /// The sender holds less than the amount.
    NotEnoughBalance,
    /// The receiver's balance plus the amount is not representable.
    BalanceOverflow,
    /// Sender and receiver are the same account.
    CannotTransferToSelf,
    /// The amount is zero.
    ZeroTransfer,
}

/// The balance of `who` in `ledger`: what the ledger holds for the account,
/// and 0 for an account it does not hold.
pub open spec fn balance_of<A>(ledger: Map<A, nat>, who: A) -> nat {
    if ledger.contains_key(who) {
        ledger[who]
    } else {
        0
    }
}

/// What a transfer of `amount` from `from` to `to` does to `ledger`, where
/// `max` is the largest representable balance: the new ledger, or the reason
/// for which the transfer is rejected.
///
/// The checks are made in this order: same account, zero amount,
/// insufficient funds, overflow of the receiver. So insufficient funds are
/// reported even where the receiver's balance would also have overflowed.
pub open spec fn transfer_outcome<A>(
    ledger: Map<A, nat>,
    from: A,
    to: A,
    amount: nat,
    max: nat,
) -> Result<Map<A, nat>, TransferError> {
    if from == to {
        Err(TransferError::CannotTransferToSelf)
    } else if amount == 0 {
        Err(TransferError::ZeroTransfer)
    } else if balance_of(ledger, from) < amount {
        Err(TransferError::NotEnoughBalance)
    } else if balance_of(ledger, to) + amount > max {
        Err(TransferError::BalanceOverflow)
    } else {
        Ok(
            ledger.insert(from, (balance_of(ledger, from) - amount) as nat).insert(
                to,
                balance_of(ledger, to) + amount,
            ),
        )
    }
}

/// The sum of all balances of a ledger that holds finitely many accounts.
pub open spec fn total_balance<A>(ledger: Map<A, nat>) -> nat
    decreases ledger.dom().len(),
    when ledger.dom().finite()
{
    if ledger.dom().len() == 0 {
        0
    } else {
        let who = ledger.dom().choose();
        ledger[who] + total_balance(ledger.remove(who))
    }
}

/// The sum of all balances is the balance of any one account that the ledger
/// holds plus the sum of the others.
pub proof fn lemma_total_balance_split<A>(ledger: Map<A, nat>, who: A)
    requires
        ledger.dom().finite(),
        ledger.contains_key(who),
    ensures
        total_balance(ledger) == ledger[who] + total_balance(ledger.remove(who)),
    decreases ledger.dom().len(),
{
    let chosen = ledger.dom().choose();
    if chosen != who {
        lemma_total_balance_split(ledger.remove(chosen), who);
        lemma_total_balance_split(ledger.remove(who), chosen);
        assert(ledger.remove(chosen).remove(who) == ledger.remove(who).remove(chosen));
    }
}

/// Recording a balance changes the sum of all balances by the difference
/// between the new balance of the account and its old one.
pub proof fn lemma_total_balance_insert<A>(ledger: Map<A, nat>, who: A, amount: nat)
    requires
        ledger.dom().finite(),
    ensures
        total_balance(ledger.insert(who, amount)) == total_balance(ledger) - balance_of(
            ledger,
            who,
        ) + amount,
{
    let after = ledger.insert(who, amount);
    lemma_total_balance_split(after, who);
    assert(after.remove(who) == ledger.remove(who));
    if ledger.contains_key(who) {
        lemma_total_balance_split(ledger, who);
    } else {
        assert(ledger.remove(who) == ledger);
    }
}

/// A successful transfer conserves the sum of all balances.
pub proof fn lemma_transfer_conserves_total<A>(
    ledger: Map<A, nat>,
    from: A,
    to: A,
    amount: nat,
    max: nat,
)
    requires
        ledger.dom().finite(),
        transfer_outcome(ledger, from, to, amount, max) is Ok,
    ensures
        total_balance(transfer_outcome(ledger, from, to, amount, max)->Ok_0) == total_balance(
            ledger,
        ),
{
    let debited = ledger.insert(from, (balance_of(ledger, from) - amount) as nat);
    lemma_total_balance_insert(ledger, from, (balance_of(ledger, from) - amount) as nat);
    lemma_total_balance_insert(debited, to, balance_of(ledger, to) + amount);
}

/// An operation on a ledger, as a mathematical value.
pub enum LedgerOp<A> {
    /// Set the balance of `who` to `amount`.
    SetBalance { who: A, amount: nat },
    /// Try to move `amount` from `from` to `to`.
    Transfer { from: A, to: A, amount: nat },
}

/// The ledger after `op`: a rejected transfer leaves it as it was.
pub open spec fn ledger_after_op<A>(ledger: Map<A, nat>, op: LedgerOp<A>, max: nat) -> Map<
    A,
    nat,
> {
    match op {
        LedgerOp::SetBalance { who, amount } => ledger.insert(who, amount),
        LedgerOp::Transfer { from, to, amount } => match transfer_outcome(
            ledger,
            from,
            to,
            amount,
            max,
        ) {
            Ok(after) => after,
            Err(_) => ledger,
        },
    }
}

/// Whether `op`, applied to `ledger`, is a `set_balance` for `who` or a
/// successful transfer from or to `who`.
pub open spec fn op_involves<A>(ledger: Map<A, nat>, op: LedgerOp<A>, who: A, max: nat) -> bool {
    match op {
        LedgerOp::SetBalance { who: account, .. } => account == who,
        LedgerOp::Transfer { from, to, amount } => transfer_outcome(ledger, from, to, amount, max)
            is Ok && (from == who || to == who),
    }
}

/// The ledger after the operations `ops`, applied in order.
pub open spec fn ledger_after_ops<A>(
    ledger: Map<A, nat>,
    ops: Seq<LedgerOp<A>>,
    max: nat,
) -> Map<A, nat>
    decreases ops.len(),
{
    if ops.len() == 0 {
        ledger
    } else {
        ledger_after_op(ledger_after_ops(ledger, ops.drop_last(), max), ops.last(), max)
    }
}

/// Whether none of the operations `ops`, applied in order to `ledger`,
/// involves `who`.
pub open spec fn ops_leave_out<A>(
    ledger: Map<A, nat>,
    ops: Seq<LedgerOp<A>>,
    who: A,
    max: nat,
) -> bool {
    forall|i: int|
        0 <= i < ops.len() ==> !op_involves(
            #[trigger] ledger_after_ops(ledger, ops.take(i), max),
            ops[i],
            who,
            max,
        )
}

/// An account keeps its balance as long as no `set_balance` and no
/// successful transfer involves it. So in a ledger that started empty, every
/// account has balance 0 until such an operation involves it.
pub proof fn lemma_uninvolved_account_keeps_balance<A>(
    ledger: Map<A, nat>,
    ops: Seq<LedgerOp<A>>,
    who: A,
    max: nat,
)
    requires
        ops_leave_out(ledger, ops, who, max),
    ensures
        balance_of(ledger_after_ops(ledger, ops, max), who) == balance_of(ledger, who),
        ledger == Map::<A, nat>::empty() ==> balance_of(ledger_after_ops(ledger, ops, max), who)
            == 0,
    decreases ops.len(),
{
    if ops.len() > 0 {
        let front = ops.drop_last();
        assert forall|i: int| 0 <= i < front.len() implies !op_involves(
            #[trigger] ledger_after_ops(ledger, front.take(i), max),
            front[i],
            who,
            max,
        ) by {
            assert(front.take(i) == ops.take(i));
        }
        lemma_uninvolved_account_keeps_balance(ledger, front, who, max);
    }
}

/// The ledger: which balance each account holds.
#[derive(Debug)]
pub struct Pallet<T: Config> {
    balances: AccountMap<T::AccountId, T::Balance>,
}

impl<T: Config> View for Pallet<T> {
    type V = Map<<T::AccountId as View>::V, nat>;

    closed spec fn view(&self) -> Self::V {
        self.balances@.map_values(|balance: T::Balance| balance.value())
    }
}

impl<T: Config> Pallet<T> {
    /// The ledger holds finitely many accounts, and every balance in it is
    /// representable.
    pub proof fn lemma_representable(&self)
        ensures
            self@.dom().finite(),
            forall|who: <T::AccountId as View>::V|
                #[trigger] balance_of(self@, who) <= T::Balance::max_value(),
    {
        self.balances.lemma_finite();
        assert(self@.dom() == self.balances@.dom());
        assert forall|who: <T::AccountId as View>::V| #[trigger]
            balance_of(self@, who) <= T::Balance::max_value() by {
            if self@.contains_key(who) {
                self.balances@[who].lemma_value_in_range();
            }
        }
    }

    /// The ledger in which no account holds anything.
    pub fn new() -> (pallet: Self)
        ensures
            pallet@ == Map::<<T::AccountId as View>::V, nat>::empty(),
    {
        Pallet { balances: AccountMap::new() }
    }

    /// Sets the balance of `who` to `amount`, whatever it was before.
    pub fn set_balance(&mut self, who: &T::AccountId, amount: T::Balance)
        ensures
            final(self)@ == old(self)@.insert(who@, amount.value()),
    {
        self.balances.insert(who, amount);
    }

    /// The balance of `who`: 0 for an account that the ledger does not hold.
    pub fn balance(&self, who: &T::AccountId) -> (balance: T::Balance)
        ensures
            balance.value() == balance_of(self@, who@),
    {
        match self.balances.get(who) {
            Some(balance) => balance,
            None => T::Balance::zero(),
        }
    }

    /// Moves `amount` from `from` to `to`, or rejects the transfer and leaves
    /// the ledger as it was.
    ///
    /// A transfer to the sender itself is rejected whatever the amount, and a
    /// transfer of zero between two accounts is rejected. A rejected transfer
    /// changes nothing. A successful one lowers the sender's balance and
    /// raises the receiver's by exactly the amount, touches no other account,
    /// and so conserves the sum of the two balances and of all balances.
    pub fn transfer(
        &mut self,
        from: &T::AccountId,
        to: &T::AccountId,
        amount: T::Balance,
    ) -> (result: Result<(), TransferError>)
        ensures
            match transfer_outcome(
                old(self)@,
                from@,
                to@,
                amount.value(),
                T::Balance::max_value(),
            ) {
                Ok(ledger) => result is Ok && final(self)@ == ledger,
                Err(error) => result == Err::<(), TransferError>(error) && final(self)@ == old(
                    self,
                )@,
            },
            from@ == to@ ==> result == Err::<(), TransferError>(
                TransferError::CannotTransferToSelf,
            ),
            from@ != to@ && amount.value() == 0 ==> result == Err::<(), TransferError>(
                TransferError::ZeroTransfer,
            ),
            result is Err ==> final(self)@ == old(self)@,
            result is Ok ==> balance_of(final(self)@, from@) == balance_of(old(self)@, from@)
                - amount.value(),
            result is Ok ==> balance_of(final(self)@, to@) == balance_of(old(self)@, to@)
                + amount.value(),
            result is Ok ==> balance_of(final(self)@, from@) + balance_of(final(self)@, to@)
                == balance_of(old(self)@, from@) + balance_of(old(self)@, to@),
            result is Ok ==> total_balance(final(self)@) == total_balance(old(self)@),
            forall|other: <T::AccountId as View>::V|
                other != from@ && other != to@ ==> balance_of(final(self)@, other) == balance_of(
                    old(self)@,
                    other,
                ),
    {
        proof {
            self.lemma_representable();
            if transfer_outcome(self@, from@, to@, amount.value(), T::Balance::max_value()) is Ok {
                lemma_transfer_conserves_total(
                    self@,
                    from@,
                    to@,
                    amount.value(),
                    T::Balance::max_value(),
                );
            }
        }
        if from.same_account(to) {
            return Err(TransferError::CannotTransferToSelf);
        }
        if amount.is_zero() {
            return Err(TransferError::ZeroTransfer);
        }
        let from_current_balance = self.balance(from);
        let to_current_balance = self.balance(to);

        let from_new_balance = match from_current_balance.checked_sub(&amount) {
            Some(balance) => balance,
            None => {
                return Err(TransferError::NotEnoughBalance);
            },
        };
        let to_new_balance = match to_current_balance.checked_add(&amount) {
            Some(balance) => balance,
            None => {
                return Err(TransferError::BalanceOverflow);
            },
        };

        proof {
            to_new_balance.lemma_value_in_range();
        }
        self.set_balance(from, from_new_balance);
        self.set_balance(to, to_new_balance);

        Ok(())
    }
}

} // verus!
