//! Minting and burning.

use vstd::prelude::*;

use crate::allowance::{spend_allowance, spend_in};
use crate::balance::{credit, read_balance, spend_balance};
use crate::compliance::{check_mint, is_frozen, register_holder, unregister_holder};
use crate::events::{emit_burn, emit_mint, Event};
use crate::host::{lemma_play_frame, play, Call, Env, EnvView, Step};
use crate::kyc::require_kyc;
use crate::roles::{require_admin_or_role, role_steps, ROLE_LIQUIDITY};
use crate::token::{settles, RwaToken, TokenView};
use crate::types::{Address, Halt, RwaError, Trap};

verus! {

broadcast use crate::host::group_play;

/// A mint of `amount` to `to`. A recipient that held nothing has to pass the
/// engine's rules and becomes a holder.
pub open spec fn mint_steps(
    token: TokenView,
    env: EnvView,
    caller: Address,
    to: Address,
    amount: i128,
) -> Seq<Step> {
    let engine = token.compliance_engine;
    let is_new = token.balance_of(to) == 0;
    role_steps(token, caller, ROLE_LIQUIDITY@) + seq![
        Step::Check(amount > 0, Halt::Error(RwaError::NegativeAmount)),
        Step::Check(
            token.max_supply <= 0 || token.total_supply + amount <= token.max_supply,
            Halt::Error(RwaError::ExceedsMaxSupply),
        ),
        Step::Ask(Call::IsApproved { registry: token.kyc_registry, addr: to }),
    ] + (if is_new {
        seq![Step::Ask(Call::CanTransfer { engine, from: env.contract, to, amount })]
    } else {
        seq![]
    }) + seq![
        Step::Check(
            token.balance_of(to) + amount <= i128::MAX,
            Halt::Trap(Trap::ArithmeticOverflow),
        ),
    ] + (if is_new {
        seq![Step::Ask(Call::RegisterHolder { engine, addr: to })]
    } else {
        seq![]
    }) + seq![
        Step::Check(
            token.total_supply + amount <= i128::MAX,
            Halt::Trap(Trap::ArithmeticOverflow),
        ),
        Step::Emit(Event::Mint { to, amount, timestamp: env.timestamp }),
    ]
}

/// The token after a mint.
pub open spec fn minted(token: TokenView, to: Address, amount: i128) -> TokenView {
    TokenView {
        balances: credit(token.balances, to, amount as int),
        total_supply: (token.total_supply + amount) as i128,
        ..token
    }
}

/// A burn of `amount` out of `from`, on behalf of `spender` if there is one.
/// An owner that burns all it has is no holder any more.
pub open spec fn burn_steps(
    token: TokenView,
    env: EnvView,
    spender: Option<Address>,
    from: Address,
    amount: i128,
) -> Seq<Step> {
    let engine = token.compliance_engine;
    seq![
        Step::Ask(
            Call::RequireAuth {
                addr: match spender {
                    Some(spender) => spender,
                    None => from,
                },
            },
        ),
        Step::Check(amount > 0, Halt::Error(RwaError::NegativeAmount)),
        Step::Check(!token.frozen_at(from), Halt::Error(RwaError::AccountFrozen)),
        Step::Ask(Call::IsApproved { registry: token.kyc_registry, addr: from }),
    ] + (match spender {
        Some(spender) => seq![
            Step::Check(
                token.allowance_of(from, spender, env.sequence).amount >= amount,
                Halt::Error(RwaError::InsufficientAllowance),
            ),
        ],
        None => seq![],
    }) + seq![
        Step::Check(
            token.balance_of(from) >= amount,
            Halt::Error(RwaError::InsufficientBalance),
        ),
    ] + (if token.balance_of(from) == amount {
        seq![Step::Ask(Call::UnregisterHolder { engine, addr: from })]
    } else {
        seq![]
    }) + seq![
        Step::Check(
            token.total_supply - amount >= i128::MIN,
            Halt::Trap(Trap::ArithmeticOverflow),
        ),
        Step::Emit(Event::Burn { from, amount, timestamp: env.timestamp }),
    ]
}

/// The token after a burn.
pub open spec fn burned(
    token: TokenView,
    env: EnvView,
    spender: Option<Address>,
    from: Address,
    amount: i128,
) -> TokenView {
    TokenView {
        balances: credit(token.balances, from, -amount),
        allowances: match spender {
            Some(spender) => spend_in(
                token.allowances,
                from,
                spender,
                env.sequence,
                amount as int,
            ),
            None => token.allowances,
        },
        total_supply: (token.total_supply - amount) as i128,
        ..token
    }
}

impl RwaToken {
    /// Mints `amount` to `to`. `caller` must be the admin or the `"liquidity"`
    /// role holder.
    #[verifier::rlimit(30)]
    pub fn mint(
        &mut self,
        env: &mut Env,
        caller: Address,
        to: Address,
        amount: i128,
    ) -> (result: Result<(), Halt>)
        ensures
            settles(
                old(self)@,
                final(self)@,
                old(env)@,
                final(env)@,
                result,
                mint_steps(old(self)@, old(env)@, caller, to, amount),
                minted(old(self)@, to, amount),
            ),
    {
        reveal_with_fuel(play, 4);
        require_admin_or_role(self, env, caller, ROLE_LIQUIDITY)?;
        proof {
            lemma_play_frame(role_steps(self@, caller, ROLE_LIQUIDITY@), old(env)@);
        }
        if amount <= 0 {
            return Err(Halt::Error(RwaError::NegativeAmount));
        }
        if self.max_supply > 0 {
            let within_cap = match self.total_supply.checked_add(amount) {
                Some(supply) => supply <= self.max_supply,
                None => false,
            };
            if !within_cap {
                return Err(Halt::Error(RwaError::ExceedsMaxSupply));
            }
        }
        require_kyc(self, env, to)?;
        let previous_balance = read_balance(&self.balances, to);
        if previous_balance == 0 {
            check_mint(self, env, to, amount)?;
        }
        let new_balance = match previous_balance.checked_add(amount) {
            Some(balance) => balance,
            None => return Err(Halt::Trap(Trap::ArithmeticOverflow)),
        };
        if previous_balance == 0 {
            register_holder(self, env, to)?;
        }
        let supply = match self.total_supply.checked_add(amount) {
            Some(supply) => supply,
            None => return Err(Halt::Trap(Trap::ArithmeticOverflow)),
        };
        self.balances.set(to, new_balance);
        self.total_supply = supply;
        emit_mint(env, to, amount);
        Ok(())
    }

    #[verifier::rlimit(30)]
    fn burn_on_behalf(
        &mut self,
        env: &mut Env,
        spender: Option<Address>,
        from: Address,
        amount: i128,
    ) -> (result: Result<(), Halt>)
        ensures
            settles(
                old(self)@,
                final(self)@,
                old(env)@,
                final(env)@,
                result,
                burn_steps(old(self)@, old(env)@, spender, from, amount),
                burned(old(self)@, old(env)@, spender, from, amount),
            ),
    {
        reveal_with_fuel(play, 5);
        env.require_auth(
            match spender {
                Some(spender) => spender,
                None => from,
            },
        )?;
        if amount <= 0 {
            return Err(Halt::Error(RwaError::NegativeAmount));
        }
        if is_frozen(self, from) {
            return Err(Halt::Error(RwaError::AccountFrozen));
        }
        require_kyc(self, env, from)?;
        let from_balance_before = read_balance(&self.balances, from);
        let mut allowances = self.allowances.duplicate();
        if let Some(spender) = spender {
            spend_allowance(&mut allowances, env, from, spender, amount)?;
        }
        let mut balances = self.balances.duplicate();
        spend_balance(&mut balances, from, amount)?;
        if from_balance_before == amount {
            unregister_holder(self, env, from)?;
        }
        let supply = match self.total_supply.checked_sub(amount) {
            Some(supply) => supply,
            None => return Err(Halt::Trap(Trap::ArithmeticOverflow)),
        };
        self.balances = balances;
        self.allowances = allowances;
        self.total_supply = supply;
        emit_burn(env, from, amount);
        Ok(())
    }

    /// Burns `amount` out of `from`.
    pub fn burn(&mut self, env: &mut Env, from: Address, amount: i128) -> (result: Result<
        (),
        Halt,
    >)
        ensures
            settles(
                old(self)@,
                final(self)@,
                old(env)@,
                final(env)@,
                result,
                burn_steps(old(self)@, old(env)@, None, from, amount),
                burned(old(self)@, old(env)@, None, from, amount),
            ),
    {
        self.burn_on_behalf(env, None, from, amount)
    }

    /// Burns `amount` out of `from` on the allowance of `spender`.
    pub fn burn_from(
        &mut self,
        env: &mut Env,
        spender: Address,
        from: Address,
        amount: i128,
    ) -> (result: Result<(), Halt>)
        ensures
            settles(
                old(self)@,
                final(self)@,
                old(env)@,
                final(env)@,
                result,
                burn_steps(old(self)@, old(env)@, Some(spender), from, amount),
                burned(old(self)@, old(env)@, Some(spender), from, amount),
            ),
    {
        self.burn_on_behalf(env, Some(spender), from, amount)
    }
}

} // verus!
