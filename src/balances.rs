use vstd::prelude::*;

use crate::support::{DispatchError, DispatchResult};
use crate::table::Table;
use crate::types::{AccountId, Balance};

verus! {

/// The shared types, and the type of balances.
pub trait Config: crate::system::Config {
    type Balance;
}

/// The balance that `balances` records for `who`, zero when it records none.
pub open spec fn balance_in(balances: Map<Seq<char>, Balance>, who: Seq<char>) -> Balance {
    if balances.contains_key(who) {
        balances[who]
    } else {
        0
    }
}

/// What moving `amount` from `who` to `to` returns.
pub open spec fn transfer_result(
    balances: Map<Seq<char>, Balance>,
    who: Seq<char>,
    to: Seq<char>,
    amount: Balance,
) -> DispatchResult {
    if amount > balance_in(balances, who) {
        Err(DispatchError::InsufficientFunds)
    } else if who != to && balance_in(balances, to) + amount > Balance::MAX {
        Err(DispatchError::ArithmeticOverflow)
    } else {
        Ok(())
    }
}

/// The balances after moving `amount` from `who` to `to`; unchanged when the
/// transfer fails or the two accounts are one.
pub open spec fn after_transfer(
    balances: Map<Seq<char>, Balance>,
    who: Seq<char>,
    to: Seq<char>,
    amount: Balance,
) -> Map<Seq<char>, Balance> {
    if transfer_result(balances, who, to, amount) is Err || who == to {
        balances
    } else {
        balances.insert(who, (balance_in(balances, who) - amount) as Balance).insert(
            to,
            (balance_in(balances, to) + amount) as Balance,
        )
    }
}

/// The sum of all balances in `balances`.
pub open spec fn total(balances: Map<Seq<char>, Balance>) -> int
    decreases balances.dom().len(),
    when balances.dom().finite()
{
    if balances.dom().len() == 0 {
        0
    } else {
        let k = balances.dom().choose();
        balances[k] + total(balances.remove(k))
    }
}

/// The balances after the transfers `(from, to, amount)` of `transfers`, made
/// one after another; a transfer that fails changes nothing.
pub open spec fn after_transfers(
    balances: Map<Seq<char>, Balance>,
    transfers: Seq<(Seq<char>, Seq<char>, Balance)>,
) -> Map<Seq<char>, Balance>
    decreases transfers.len(),
{
    if transfers.len() == 0 {
        balances
    } else {
        let t = transfers.last();
        after_transfer(after_transfers(balances, transfers.drop_last()), t.0, t.1, t.2)
    }
}

/// The total counts the balance of any one account once.
proof fn lemma_total_remove(balances: Map<Seq<char>, Balance>, k: Seq<char>)
    requires
        balances.dom().finite(),
        balances.contains_key(k),
    ensures
        total(balances) == balances[k] + total(balances.remove(k)),
    decreases balances.dom().len(),
{
    assert(balances.dom().len() != 0);
    let c = balances.dom().choose();
    if c != k {
        lemma_total_remove(balances.remove(c), k);
        lemma_total_remove(balances.remove(k), c);
        assert(balances.remove(c).remove(k) =~= balances.remove(k).remove(c));
    }
}

/// Setting the balance of `who` to `amount` changes the total by the difference
/// between `amount` and the balance it replaces.
pub proof fn lemma_set_balance_total(balances: Map<Seq<char>, Balance>, who: Seq<char>, amount: Balance)
    requires
        balances.dom().finite(),
    ensures
        total(balances.insert(who, amount)) == total(balances) - balance_in(balances, who) + amount,
{
    let after = balances.insert(who, amount);
    lemma_total_remove(after, who);
    if balances.contains_key(who) {
        lemma_total_remove(balances, who);
        assert(after.remove(who) =~= balances.remove(who));
    } else {
        assert(after.remove(who) =~= balances);
    }
}

/// A transfer, successful or not, leaves the total of all balances unchanged.
pub proof fn lemma_transfer_conserves_total(
    balances: Map<Seq<char>, Balance>,
    who: Seq<char>,
    to: Seq<char>,
    amount: Balance,
)
    requires
        balances.dom().finite(),
    ensures
        after_transfer(balances, who, to, amount).dom().finite(),
        total(after_transfer(balances, who, to, amount)) == total(balances),
{
    if transfer_result(balances, who, to, amount) is Ok && who != to {
        let debited = balances.insert(who, (balance_in(balances, who) - amount) as Balance);
        lemma_set_balance_total(balances, who, (balance_in(balances, who) - amount) as Balance);
        lemma_set_balance_total(debited, to, (balance_in(balances, to) + amount) as Balance);
    }
}

/// Any sequence of transfers leaves the total of all balances unchanged.
pub proof fn lemma_transfers_conserve_total(
    balances: Map<Seq<char>, Balance>,
    transfers: Seq<(Seq<char>, Seq<char>, Balance)>,
)
    requires
        balances.dom().finite(),
    ensures
        after_transfers(balances, transfers).dom().finite(),
        total(after_transfers(balances, transfers)) == total(balances),
    decreases transfers.len(),
{
    if transfers.len() > 0 {
        let t = transfers.last();
        lemma_transfers_conserve_total(balances, transfers.drop_last());
        lemma_transfer_conserves_total(after_transfers(balances, transfers.drop_last()), t.0, t.1, t.2);
    }
}

/// A transfer of more than the sender holds fails with `InsufficientFunds` and
/// leaves every balance as it was.
pub proof fn lemma_funds_guard(
    balances: Map<Seq<char>, Balance>,
    who: Seq<char>,
    to: Seq<char>,
    amount: Balance,
)
    requires
        amount > balance_in(balances, who),
    ensures
        transfer_result(balances, who, to, amount) == Err::<(), DispatchError>(
            DispatchError::InsufficientFunds,
        ),
        after_transfer(balances, who, to, amount) == balances,
{
}

/// A transfer from an account to itself of no more than it holds succeeds and
/// leaves its balance as it was.
pub proof fn lemma_self_transfer(balances: Map<Seq<char>, Balance>, who: Seq<char>, amount: Balance)
    requires
        amount <= balance_in(balances, who),
    ensures
        transfer_result(balances, who, who, amount) == Ok::<(), DispatchError>(()),
        balance_in(after_transfer(balances, who, who, amount), who) == balance_in(balances, who),
{
}

/// Relies on num's `CheckedAdd` for `u128`: the sum, or `None` when it does not fit.
#[verifier::external_body]
fn checked_add_balance(a: Balance, b: Balance) -> (r: Option<Balance>)
    ensures
        r == (if a + b <= Balance::MAX {
            Some((a + b) as Balance)
        } else {
            None
        }),
{
    num::traits::CheckedAdd::checked_add(&a, &b)
}

/// Relies on num's `CheckedSub` for `u128`: the difference, or `None` when it is negative.
#[verifier::external_body]
fn checked_sub_balance(a: Balance, b: Balance) -> (r: Option<Balance>)
    ensures
        r == (if a >= b {
            Some((a - b) as Balance)
        } else {
            None
        }),
{
    num::traits::CheckedSub::checked_sub(&a, &b)
}

/// The operations of the ledger module that an extrinsic can ask for.
#[derive(Debug)]
pub enum Call {
    Transfer { to: AccountId, amount: Balance },
}

/// The ledger module: each account's balance.
#[derive(Debug)]
pub struct Pallet {
    balances: Table<Balance>,
}

impl Pallet {
    /// Each account has at most one recorded balance.
    pub closed spec fn wf(&self) -> bool {
        self.balances.wf()
    }

    /// The recorded balances; an account without an entry holds zero.
    pub closed spec fn balances(&self) -> Map<Seq<char>, Balance> {
        self.balances@
    }

    /// The ledger records finitely many balances.
    pub proof fn lemma_balances_finite(&self)
        requires
            self.wf(),
        ensures
            self.balances().dom().finite(),
    {
        self.balances.lemma_view_finite();
    }

    /// No balances.
    pub fn new() -> (r: Self)
        ensures
            r.wf(),
            r.balances() == Map::<Seq<char>, Balance>::empty(),
    {
        Pallet { balances: Table::new() }
    }

    pub fn get_balance(&self, who: &AccountId) -> (r: Balance)
        requires
            self.wf(),
        ensures
            r == balance_in(self.balances(), who@),
    {
        match self.balances.get(who) {
            Some(b) => *b,
            None => 0,
        }
    }

    /// Sets the balance of `who` to `amount`, whatever it was.
    pub fn set_balance(&mut self, who: &AccountId, amount: Balance)
        requires
            old(self).wf(),
        ensures
            final(self).wf(),
            final(self).balances() == old(self).balances().insert(who@, amount),
    {
        self.balances.insert(who, amount);
    }

    /// Moves `amount` from `who` to `to`. Fails, changing nothing, when `who`
    /// holds less than `amount` or when `to` would overflow.
    pub fn transfer(&mut self, who: &AccountId, to: &AccountId, amount: Balance) -> (r:
        DispatchResult)
        requires
            old(self).wf(),
        ensures
            final(self).wf(),
            r == transfer_result(old(self).balances(), who@, to@, amount),
            final(self).balances() == after_transfer(old(self).balances(), who@, to@, amount),
    {
        let who_balance = self.get_balance(who);
        if amount > who_balance {
            return Err(DispatchError::InsufficientFunds);
        }
        let new_who_balance = match checked_sub_balance(who_balance, amount) {
            Some(b) => b,
            None => {
                return Err(DispatchError::ArithmeticOverflow);
            },
        };
        if *who == *to {
            return Ok(());
        }
        let to_balance = self.get_balance(to);
        let new_to_balance = match checked_add_balance(to_balance, amount) {
            Some(b) => b,
            None => {
                return Err(DispatchError::ArithmeticOverflow);
            },
        };
        self.set_balance(who, new_who_balance);
        self.set_balance(to, new_to_balance);
        Ok(())
    }

    /// Runs a ledger operation for `caller`.
    pub fn dispatch(&mut self, caller: AccountId, call: Call) -> (r: DispatchResult)
        requires
            old(self).wf(),
        ensures
            final(self).wf(),
            match call {
                Call::Transfer { to, amount } => {
                    &&& r == transfer_result(old(self).balances(), caller@, to@, amount)
                    &&& final(self).balances() == after_transfer(
                        old(self).balances(),
                        caller@,
                        to@,
                        amount,
                    )
                },
            },
    {
        match call {
            Call::Transfer { to, amount } => self.transfer(&caller, &to, amount),
        }
    }
}

} // verus!
