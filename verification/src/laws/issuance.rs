//! What a mint and a burn do, case by case.

use vstd::prelude::*;

use crate::events::Event;
use crate::host::{play, Call, Effect, EnvView};
use crate::laws::exact::{first_of, role_only, unless};
use crate::laws::verdicts::verdict;
use crate::operation::Operation;
use crate::token::TokenView;
use crate::types::{Address, AllowanceValue, Halt, RwaError, Trap};

verus! {

broadcast use crate::host::group_play;

/// What is stored for an address, or nothing.
pub open spec fn stored(balances: Map<Address, i128>, addr: Address) -> i128 {
    if balances.contains_key(addr) {
        balances[addr]
    } else {
        0
    }
}

/// What is stored for a pair of owner and spender, if it has not lapsed: an
/// allowance can be used before its expiration ledger.
pub open spec fn usable(
    allowances: Map<(Address, Address), AllowanceValue>,
    from: Address,
    spender: Address,
    ledger: u32,
) -> i128 {
    if allowances.contains_key((from, spender)) && ledger < allowances[(
        from,
        spender,
    )].expiration_ledger {
        allowances[(from, spender)].amount
    } else {
        0
    }
}

/// The admin or the holder of the liquidity role mints a positive amount to an
/// approved account, within the supply cap if there is one. For an account
/// that holds nothing yet the engine is asked first, and told afterwards.
#[verifier::rlimit(60)]
pub proof fn mint_exactly(
    token: TokenView,
    env: EnvView,
    caller: Address,
    to: Address,
    amount: i128,
)
    ensures
        ({
            let operation = Operation::Mint { caller, to, amount };
            let run = play(operation.steps(token, env), env);
            let after = operation.outcome(token, env);
            let engine = token.compliance_engine;
            let held = stored(token.balances, to);
            let approval = Call::IsApproved { registry: token.kyc_registry, addr: to };
            let question = Call::CanTransfer { engine, from: env.contract, to, amount };
            let message = Call::RegisterHolder { engine, addr: to };
            &&& run.halt == first_of(
                first_of(
                    role_only(token, env, caller, "liquidity"@),
                    first_of(
                        unless(amount > 0, Halt::Error(RwaError::NegativeAmount)),
                        unless(
                            !(token.max_supply > 0 && token.total_supply + amount
                                > token.max_supply),
                            Halt::Error(RwaError::ExceedsMaxSupply),
                        ),
                    ),
                ),
                first_of(
                    verdict(approval, env.inbox, 1),
                    if held == 0 {
                        first_of(
                            verdict(question, env.inbox, 2),
                            first_of(
                                verdict(message, env.inbox, 3),
                                unless(
                                    token.total_supply + amount <= i128::MAX,
                                    Halt::Trap(Trap::ArithmeticOverflow),
                                ),
                            ),
                        )
                    } else {
                        unless(
                            held + amount <= i128::MAX && token.total_supply + amount <= i128::MAX,
                            Halt::Trap(Trap::ArithmeticOverflow),
                        )
                    },
                ),
            )
            &&& run.halt is None ==> {
                &&& run.env.log == env.log + seq![
                    Effect::Call(Call::RequireAuth { addr: caller }),
                    Effect::Call(approval),
                ] + (if held == 0 {
                    seq![Effect::Call(question), Effect::Call(message)]
                } else {
                    seq![]
                }) + seq![Effect::Event(Event::Mint { to, amount, timestamp: env.timestamp })]
                &&& run.env.inbox == env.inbox.skip(
                    if held == 0 {
                        4
                    } else {
                        2
                    },
                )
                &&& after == TokenView {
                    balances: token.balances.insert(to, (held + amount) as i128),
                    total_supply: (token.total_supply + amount) as i128,
                    ..token
                }
            }
        }),
{
    reveal_with_fuel(play, 4);
    let run = play(Operation::Mint { caller, to, amount }.steps(token, env), env);
    let held = stored(token.balances, to);
    if run.halt is None {
        if held == 0 {
            assert(run.env.inbox =~= env.inbox.skip(4));
        } else {
            assert(run.env.inbox =~= env.inbox.skip(2));
        }
    }
}

/// An owner, or a spender within its allowance, burns a positive amount out of
/// an approved account that is not frozen and holds that much. If nothing is
/// left there, the engine is told. The allowance is used for the amount, keeps
/// its expiration ledger, and is removed once it is used up.
#[verifier::rlimit(60)]
pub proof fn burn_exactly(
    token: TokenView,
    env: EnvView,
    spender: Option<Address>,
    from: Address,
    amount: i128,
)
    ensures
        ({
            let operation = match spender {
                Some(spender) => Operation::BurnFrom { spender, from, amount },
                None => Operation::Burn { from, amount },
            };
            let signer = match spender {
                Some(spender) => spender,
                None => from,
            };
            let run = play(operation.steps(token, env), env);
            let after = operation.outcome(token, env);
            let held = stored(token.balances, from);
            let approval = Call::IsApproved { registry: token.kyc_registry, addr: from };
            let message = Call::UnregisterHolder { engine: token.compliance_engine, addr: from };
            let authorization = Call::RequireAuth { addr: signer };
            &&& run.halt == first_of(
                first_of(
                    verdict(authorization, env.inbox, 0),
                    first_of(
                        unless(amount > 0, Halt::Error(RwaError::NegativeAmount)),
                        first_of(
                            unless(
                                !(token.frozen.contains_key(from) && token.frozen[from]),
                                Halt::Error(RwaError::AccountFrozen),
                            ),
                            verdict(approval, env.inbox, 1),
                        ),
                    ),
                ),
                first_of(
                    unless(
                        spender is None || usable(
                            token.allowances,
                            from,
                            spender->0,
                            env.sequence,
                        ) >= amount,
                        Halt::Error(RwaError::InsufficientAllowance),
                    ),
                    first_of(
                        unless(held >= amount, Halt::Error(RwaError::InsufficientBalance)),
                        first_of(
                            if held == amount {
                                verdict(message, env.inbox, 2)
                            } else {
                                None
                            },
                            unless(
                                token.total_supply - amount >= i128::MIN,
                                Halt::Trap(Trap::ArithmeticOverflow),
                            ),
                        ),
                    ),
                ),
            )
            &&& run.halt is None ==> {
                &&& run.env.log == env.log + seq![
                    Effect::Call(authorization),
                    Effect::Call(approval),
                ] + (if held == amount {
                    seq![Effect::Call(message)]
                } else {
                    seq![]
                }) + seq![Effect::Event(Event::Burn { from, amount, timestamp: env.timestamp })]
                &&& run.env.inbox == env.inbox.skip(
                    if held == amount {
                        3
                    } else {
                        2
                    },
                )
                &&& after == TokenView {
                    balances: token.balances.insert(from, (held - amount) as i128),
                    total_supply: (token.total_supply - amount) as i128,
                    allowances: if spender is None {
                        token.allowances
                    } else if token.allowances[(from, spender->0)].amount == amount {
                        token.allowances.remove((from, spender->0))
                    } else {
                        token.allowances.insert(
                            (from, spender->0),
                            AllowanceValue {
                                amount: (token.allowances[(from, spender->0)].amount
                                    - amount) as i128,
                                expiration_ledger: token.allowances[(
                                    from,
                                    spender->0,
                                )].expiration_ledger,
                            },
                        )
                    },
                    ..token
                }
            }
        }),
{
    reveal_with_fuel(play, 5);
    let operation = match spender {
        Some(spender) => Operation::BurnFrom { spender, from, amount },
        None => Operation::Burn { from, amount },
    };
    let run = play(operation.steps(token, env), env);
    let held = stored(token.balances, from);
    if run.halt is None {
        if held == amount {
            assert(run.env.inbox =~= env.inbox.skip(3));
        } else {
            assert(run.env.inbox =~= env.inbox.skip(2));
        }
    }
}

} // verus!
