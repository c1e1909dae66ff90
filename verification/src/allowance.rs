//! Allowances: how much of an owner's balance a spender may move, and until
//! which ledger.

use vstd::prelude::*;

use crate::events::{emit_approve, Event};
use crate::host::{play, Call, Env, Step};
use crate::table::Table;
use crate::token::{settles, RwaToken, TokenView};
use crate::types::{Address, AllowanceValue, Halt, RwaError};

verus! {

broadcast use crate::host::group_play;

/// The usable allowance at a ledger. It is gone from its expiration ledger on.
pub open spec fn allowance_in(
    allowances: Map<(Address, Address), AllowanceValue>,
    from: Address,
    spender: Address,
    sequence: u32,
) -> AllowanceValue {
    if !allowances.contains_key((from, spender)) {
        AllowanceValue { amount: 0, expiration_ledger: 0 }
    } else if allowances[(from, spender)].expiration_ledger <= sequence {
        AllowanceValue { amount: 0, ..allowances[(from, spender)] }
    } else {
        allowances[(from, spender)]
    }
}

/// The allowances after `amount` of one was used. A used-up allowance is
/// removed.
pub open spec fn spend_in(
    allowances: Map<(Address, Address), AllowanceValue>,
    from: Address,
    spender: Address,
    sequence: u32,
    amount: int,
) -> Map<(Address, Address), AllowanceValue> {
    let usable = allowance_in(allowances, from, spender, sequence);
    if usable.amount == amount {
        allowances.remove((from, spender))
    } else {
        allowances.insert(
            (from, spender),
            AllowanceValue { amount: (usable.amount - amount) as i128, ..usable },
        )
    }
}

impl TokenView {
    /// The usable allowance at a ledger.
    pub open spec fn allowance_of(
        self,
        from: Address,
        spender: Address,
        sequence: u32,
    ) -> AllowanceValue {
        allowance_in(self.allowances, from, spender, sequence)
    }
}

/// Returns the usable allowance.
pub fn read_allowance(
    allowances: &Table<(Address, Address), AllowanceValue>,
    env: &Env,
    from: Address,
    spender: Address,
) -> (usable: AllowanceValue)
    ensures
        usable == allowance_in(allowances@, from, spender, env@.sequence),
{
    match allowances.get(&(from, spender)) {
        Some(stored) => if stored.expiration_ledger <= env.sequence {
            AllowanceValue { amount: 0, expiration_ledger: stored.expiration_ledger }
        } else {
            *stored
        },
        None => AllowanceValue { amount: 0, expiration_ledger: 0 },
    }
}

/// Uses `amount` of an allowance.
pub fn spend_allowance(
    allowances: &mut Table<(Address, Address), AllowanceValue>,
    env: &Env,
    from: Address,
    spender: Address,
    amount: i128,
) -> (result: Result<(), Halt>)
    requires
        amount > 0,
    ensures
        ({
            let usable = allowance_in(old(allowances)@, from, spender, env@.sequence);
            match result {
                Ok(()) => {
                    &&& usable.amount >= amount
                    &&& final(allowances)@ == spend_in(
                        old(allowances)@,
                        from,
                        spender,
                        env@.sequence,
                        amount as int,
                    )
                },
                Err(halt) => {
                    &&& usable.amount < amount
                    &&& final(allowances)@ == old(allowances)@
                    &&& halt == Halt::Error(RwaError::InsufficientAllowance)
                },
            }
        }),
{
    let usable = read_allowance(allowances, env, from, spender);
    if usable.amount < amount {
        return Err(Halt::Error(RwaError::InsufficientAllowance));
    }
    let rest: i128 = usable.amount - amount;
    if rest == 0 {
        allowances.remove(&(from, spender));
    } else {
        allowances.set(
            (from, spender),
            AllowanceValue { amount: rest, expiration_ledger: usable.expiration_ledger },
        );
    }
    Ok(())
}

pub open spec fn approve_steps(
    from: Address,
    spender: Address,
    amount: i128,
    expiration_ledger: u32,
    sequence: u32,
) -> Seq<Step> {
    seq![
        Step::Ask(Call::RequireAuth { addr: from }),
        Step::Check(
            amount <= 0 || expiration_ledger >= sequence,
            Halt::Error(RwaError::AllowanceExpired),
        ),
        Step::Emit(Event::Approve { from, spender, amount, expiration_ledger }),
    ]
}

impl RwaToken {
    /// Returns how much `spender` may move of the balance of `from` now.
    pub fn allowance(&self, env: &Env, from: Address, spender: Address) -> (amount: i128)
        ensures
            amount == self@.allowance_of(from, spender, env@.sequence).amount,
    {
        read_allowance(&self.allowances, env, from, spender).amount
    }

    /// Lets `spender` move up to `amount` of the balance of `from`, before
    /// ledger `expiration_ledger`. A positive allowance cannot be given with
    /// an expiration ledger in the past.
    pub fn approve(
        &mut self,
        env: &mut Env,
        from: Address,
        spender: Address,
        amount: i128,
        expiration_ledger: u32,
    ) -> (result: Result<(), Halt>)
        ensures
            settles(
                old(self)@,
                final(self)@,
                old(env)@,
                final(env)@,
                result,
                approve_steps(from, spender, amount, expiration_ledger, old(env)@.sequence),
                (TokenView {
                    allowances: old(self)@.allowances.insert(
                        (from, spender),
                        AllowanceValue { amount, expiration_ledger },
                    ),
                    ..old(self)@
                }),
            ),
    {
        reveal_with_fuel(play, 4);
        env.require_auth(from)?;
        if amount > 0 && expiration_ledger < env.sequence {
            return Err(Halt::Error(RwaError::AllowanceExpired));
        }
        self.allowances.set((from, spender), AllowanceValue { amount, expiration_ledger });
        emit_approve(env, from, spender, amount, expiration_ledger);
        Ok(())
    }
}

} // verus!
