//! Balances and supply.

use vstd::prelude::*;

use crate::table::Table;
use crate::token::{RwaToken, TokenView};
use crate::types::{Address, Halt, RwaError, Trap};

verus! {

/// The balance of `addr`; an address without an entry has none.
pub open spec fn balance_in(balances: Map<Address, i128>, addr: Address) -> i128 {
    if balances.contains_key(addr) {
        balances[addr]
    } else {
        0
    }
}

/// The balances after `amount` was added to the balance of `addr`.
pub open spec fn credit(balances: Map<Address, i128>, addr: Address, amount: int) -> Map<
    Address,
    i128,
> {
    balances.insert(addr, (balance_in(balances, addr) + amount) as i128)
}

/// Returns the balance of `addr`.
pub fn read_balance(balances: &Table<Address, i128>, addr: Address) -> (balance: i128)
    ensures
        balance == balance_in(balances@, addr),
{
    match balances.get(&addr) {
        Some(balance) => *balance,
        None => 0,
    }
}

/// Takes `amount` from the balance of `from`.
pub fn spend_balance(
    balances: &mut Table<Address, i128>,
    from: Address,
    amount: i128,
) -> (result: Result<(), Halt>)
    ensures
        match result {
            Ok(()) => {
                &&& balance_in(old(balances)@, from) >= amount
                &&& balance_in(old(balances)@, from) - amount <= i128::MAX
                &&& final(balances)@ == credit(old(balances)@, from, -amount)
            },
            Err(halt) => {
                &&& final(balances)@ == old(balances)@
                &&& halt == (if balance_in(old(balances)@, from) < amount {
                    Halt::Error(RwaError::InsufficientBalance)
                } else {
                    Halt::Trap(Trap::ArithmeticOverflow)
                })
                &&& balance_in(old(balances)@, from) >= amount ==> balance_in(old(balances)@, from)
                    - amount > i128::MAX
            },
        },
{
    let balance = read_balance(balances, from);
    if balance < amount {
        return Err(Halt::Error(RwaError::InsufficientBalance));
    }
    match balance.checked_sub(amount) {
        Some(rest) => {
            balances.set(from, rest);
            Ok(())
        },
        None => Err(Halt::Trap(Trap::ArithmeticOverflow)),
    }
}

/// Adds `amount` to the balance of `to`.
pub fn receive_balance(
    balances: &mut Table<Address, i128>,
    to: Address,
    amount: i128,
) -> (result: Result<(), Halt>)
    ensures
        match result {
            Ok(()) => {
                &&& i128::MIN <= balance_in(old(balances)@, to) + amount <= i128::MAX
                &&& final(balances)@ == credit(old(balances)@, to, amount as int)
            },
            Err(halt) => {
                &&& !(i128::MIN <= balance_in(old(balances)@, to) + amount <= i128::MAX)
                &&& final(balances)@ == old(balances)@
                &&& halt == Halt::Trap(Trap::ArithmeticOverflow)
            },
        },
{
    match read_balance(balances, to).checked_add(amount) {
        Some(sum) => {
            balances.set(to, sum);
            Ok(())
        },
        None => Err(Halt::Trap(Trap::ArithmeticOverflow)),
    }
}

impl TokenView {
    /// The balance of `addr`.
    pub open spec fn balance_of(self, addr: Address) -> i128 {
        balance_in(self.balances, addr)
    }
}

impl RwaToken {
    /// Returns the balance of `id`.
    pub fn balance(&self, id: Address) -> (balance: i128)
        ensures
            balance == self@.balance_of(id),
    {
        read_balance(&self.balances, id)
    }

    /// Returns the number of tokens in circulation.
    pub fn total_supply(&self) -> (supply: i128)
        ensures
            supply == self@.total_supply,
    {
        self.total_supply
    }

    /// Returns the supply cap; zero means that there is none.
    pub fn max_supply(&self) -> (cap: i128)
        ensures
            cap == self@.max_supply,
    {
        self.max_supply
    }
}

} // verus!
