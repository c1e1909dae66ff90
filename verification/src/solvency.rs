//! Where tokens come from and where they go: the balances always add up to the
//! supply, and the supply stays within its cap.

use vstd::prelude::*;

use crate::balance::{balance_in, credit};
use crate::host::{play, EnvView, Step};
use crate::operation::{single_leg, Operation};
use crate::protocol::{lemma_success_holds_checks, success_passes_every_step};
use crate::supply::{burn_steps, burned, mint_steps, minted};
use crate::token::TokenView;
use crate::transfer::{
    all_positive, lemma_totals, move_leg, paid_to, pay, plan_steps, recipient_steps,
    recipients_steps, total_of, totals_steps, transfer_steps, transferred, MAX_BATCH,
};
use crate::types::{Address, Halt, RecipientEntry, RwaError};

verus! {

broadcast use crate::host::group_play;

/// The sum of all balances.
pub open spec fn sum_of(balances: Map<Address, i128>) -> int
    decreases balances.dom().len(),
    when balances.dom().finite()
{
    if balances.dom().len() == 0 {
        0
    } else {
        let addr = balances.dom().choose();
        balances[addr] + sum_of(balances.remove(addr))
    }
}

/// The sum of the balances is that of one of them and that of the others.
pub proof fn lemma_sum_remove(balances: Map<Address, i128>, addr: Address)
    requires
        balances.dom().finite(),
        balances.contains_key(addr),
    ensures
        sum_of(balances) == balances[addr] + sum_of(balances.remove(addr)),
    decreases balances.dom().len(),
{
    let first = balances.dom().choose();
    if first != addr {
        lemma_sum_remove(balances.remove(first), addr);
        lemma_sum_remove(balances.remove(addr), first);
        assert(balances.remove(first).remove(addr) =~= balances.remove(addr).remove(first));
    }
}

/// Setting one balance changes the sum by what it changes that balance.
pub proof fn lemma_sum_insert(balances: Map<Address, i128>, addr: Address, balance: i128)
    requires
        balances.dom().finite(),
    ensures
        sum_of(balances.insert(addr, balance)) == sum_of(balances) - balance_in(balances, addr)
            + balance,
{
    let after = balances.insert(addr, balance);
    lemma_sum_remove(after, addr);
    assert(after.remove(addr) =~= balances.remove(addr));
    if balances.contains_key(addr) {
        lemma_sum_remove(balances, addr);
    } else {
        assert(balances.remove(addr) =~= balances);
    }
}

/// Whether there are finitely many balances and none of them is negative.
pub open spec fn sound(balances: Map<Address, i128>) -> bool {
    &&& balances.dom().finite()
    &&& forall|addr: Address| #[trigger] balance_in(balances, addr) >= 0
}

/// Any two balances together are at most the sum of all.
pub proof fn lemma_sum_bounds(balances: Map<Address, i128>, a: Address, b: Address)
    requires
        sound(balances),
    ensures
        sum_of(balances) >= 0,
        balance_in(balances, a) <= sum_of(balances),
        a != b ==> balance_in(balances, a) + balance_in(balances, b) <= sum_of(balances),
    decreases balances.dom().len(),
{
    if balances.dom().len() == 0 {
        assert(balances.dom() =~= Set::empty());
    } else {
        let first = balances.dom().choose();
        let rest = balances.remove(first);
        assert(balance_in(balances, first) >= 0);
        assert forall|addr: Address| #[trigger] balance_in(rest, addr) >= 0 by {
            assert(balance_in(balances, addr) >= 0);
        }
        lemma_sum_bounds(rest, a, b);
        lemma_sum_bounds(rest, b, a);
        assert(balance_in(rest, a) >= 0);
        assert(balance_in(rest, b) >= 0);
    }
}

/// The invariant of balances and supply: no balance is negative, the balances
/// add up to the supply, and the supply is within its cap.
pub open spec fn solvent(token: TokenView) -> bool {
    &&& sound(token.balances)
    &&& sum_of(token.balances) == token.total_supply
    &&& token.max_supply >= 0
    &&& token.max_supply > 0 ==> token.total_supply <= token.max_supply
}

/// Covered legs take from the sender what they give to the recipients, and no
/// balance leaves its range on the way.
pub proof fn lemma_pay(
    balances: Map<Address, i128>,
    from: Address,
    recipients: Seq<RecipientEntry>,
)
    requires
        sound(balances),
        sum_of(balances) <= i128::MAX,
        all_positive(recipients),
        total_of(recipients) <= balance_in(balances, from),
    ensures
        sound(pay(balances, from, recipients)),
        sum_of(pay(balances, from, recipients)) == sum_of(balances),
        forall|addr: Address|
            #[trigger] balance_in(pay(balances, from, recipients), addr) == balance_in(
                balances,
                addr,
            ) + paid_to(recipients, addr) - (if addr == from {
                total_of(recipients)
            } else {
                0
            }),
    decreases recipients.len(),
{
    if recipients.len() > 0 {
        let rest = recipients.drop_last();
        let leg = recipients.last();
        assert(leg == recipients[recipients.len() - 1]);
        assert forall|i: int| 0 <= i < rest.len() implies (#[trigger] rest[i]).amount > 0 by {
            assert(rest[i] == recipients[i]);
        }
        lemma_pay(balances, from, rest);
        lemma_totals(rest, rest.len() as int, from);
        let before = pay(balances, from, rest);
        assert(balance_in(before, from) >= leg.amount);
        lemma_sum_bounds(before, from, leg.to);
        let debited = credit(before, from, -leg.amount);
        lemma_sum_insert(before, from, (balance_in(before, from) - leg.amount) as i128);
        assert(balance_in(before, leg.to) >= 0);
        lemma_sum_insert(
            debited,
            leg.to,
            (balance_in(debited, leg.to) + leg.amount) as i128,
        );
        let after = move_leg(before, from, leg);
        assert forall|addr: Address| #[trigger]
            balance_in(after, addr) == balance_in(balances, addr) + paid_to(recipients, addr) - (
            if addr == from {
                total_of(recipients)
            } else {
                0
            }) by {
            assert(balance_in(before, addr) >= 0);
        }
        assert forall|addr: Address| #[trigger] balance_in(after, addr) >= 0 by {
            assert(balance_in(before, addr) >= 0);
        }
    }
}

/// Validated legs are positive.
proof fn lemma_validated_positive(
    token: TokenView,
    from: Address,
    recipients: Seq<RecipientEntry>,
    i: int,
    env: EnvView,
)
    requires
        0 <= i <= recipients.len(),
        play(recipients_steps(token, from, recipients, i), env).halt is None,
    ensures
        forall|j: int| i <= j < recipients.len() ==> (#[trigger] recipients[j]).amount > 0,
    decreases recipients.len() - i,
{
    if i < recipients.len() {
        success_passes_every_step(recipients_steps(token, from, recipients, i), env, 0);
        let first = recipient_steps(
            token,
            from,
            recipients[i].to,
            recipients[i].amount,
        ).push(
            Step::Check(
                total_of(recipients.take(i + 1)) <= i128::MAX,
                Halt::Error(RwaError::BatchAmountOverflow),
            ),
        );
        lemma_validated_positive(token, from, recipients, i + 1, play(first, env).env);
    }
}

/// A validated transfer has at least one leg and at most ten, every leg is
/// positive, and the sender holds their total.
pub proof fn validated_transfer_is_covered(
    token: TokenView,
    from: Address,
    recipients: Seq<RecipientEntry>,
    env: EnvView,
)
    requires
        play(plan_steps(token, from, recipients), env).halt is None,
    ensures
        0 < recipients.len() <= MAX_BATCH,
        all_positive(recipients),
        0 < total_of(recipients) <= token.balance_of(from),
{
    let steps = plan_steps(token, from, recipients);
    let legs = recipients_steps(token, from, recipients, 0);
    lemma_success_holds_checks(steps, env);
    assert(steps[0] is Check && steps[1] is Check && steps[4 + legs.len() as int] is Check);
    let lead = steps.take(4);
    assert(steps =~= lead + legs + totals_steps(token, from, recipients));
    lemma_validated_positive(token, from, recipients, 0, play(lead, env).env);
    let rest = recipients.drop_last();
    assert forall|i: int| 0 <= i < rest.len() implies (#[trigger] rest[i]).amount > 0 by {
        assert(rest[i] == recipients[i]);
    }
    lemma_totals(rest, rest.len() as int, from);
    assert(recipients.last() == recipients[recipients.len() - 1]);
}

/// A transfer that goes through changes every balance by what the legs say and
/// leaves the supply alone.
pub proof fn transfer_moves_exactly(
    token: TokenView,
    env: EnvView,
    spender: Option<Address>,
    from: Address,
    recipients: Seq<RecipientEntry>,
)
    requires
        solvent(token),
        play(transfer_steps(token, env, spender, from, recipients), env).halt is None,
    ensures
        forall|addr: Address|
            #[trigger] transferred(token, env, spender, from, recipients).balance_of(addr)
                == token.balance_of(addr) + paid_to(recipients, addr) - (if addr == from {
                total_of(recipients)
            } else {
                0
            }),
        transferred(token, env, spender, from, recipients).total_supply == token.total_supply,
        solvent(transferred(token, env, spender, from, recipients)),
{
    lemma_transfer_validated(token, env, spender, from, recipients);
    lemma_pay(token.balances, from, recipients);
    let after = transferred(token, env, spender, from, recipients);
    assert forall|addr: Address| #[trigger]
        after.balance_of(addr) == token.balance_of(addr) + paid_to(recipients, addr) - (if addr
            == from {
            total_of(recipients)
        } else {
            0
        }) by {
        assert(balance_in(pay(token.balances, from, recipients), addr) == after.balance_of(addr));
    }
}

/// A transfer that goes through has been validated.
pub proof fn lemma_transfer_validated(
    token: TokenView,
    env: EnvView,
    spender: Option<Address>,
    from: Address,
    recipients: Seq<RecipientEntry>,
)
    requires
        play(transfer_steps(token, env, spender, from, recipients), env).halt is None,
    ensures
        0 < recipients.len() <= MAX_BATCH,
        all_positive(recipients),
        0 < total_of(recipients) <= token.balance_of(from),
        !token.transfer_lock,
        !token.frozen_at(from),
        spender matches Some(spender) ==> token.allowance_of(from, spender, env.sequence).amount
            >= total_of(recipients),
{
    let steps = transfer_steps(token, env, spender, from, recipients);
    let plan = plan_steps(token, from, recipients);
    lemma_success_holds_checks(steps, env);
    assert(steps[0] is Check && steps[4] is Check);
    if spender is Some {
        assert(steps[2 + plan.len() as int] is Check);
    }
    let lead = steps.take(2);
    let rest = steps.skip(2 + plan.len() as int);
    assert(steps =~= lead + plan + rest);
    validated_transfer_is_covered(token, from, recipients, play(lead, env).env);
}

/// A mint that goes through adds its amount to one balance and to the supply.
pub proof fn mint_adds_exactly(
    token: TokenView,
    env: EnvView,
    caller: Address,
    to: Address,
    amount: i128,
)
    requires
        solvent(token),
        play(mint_steps(token, env, caller, to, amount), env).halt is None,
    ensures
        amount > 0,
        forall|addr: Address|
            #[trigger] minted(token, to, amount).balance_of(addr) == token.balance_of(addr) + (
            if addr == to {
                amount as int
            } else {
                0
            }),
        minted(token, to, amount).total_supply == token.total_supply + amount,
        solvent(minted(token, to, amount)),
{
    let steps = mint_steps(token, env, caller, to, amount);
    let extra: int = if token.balance_of(to) == 0 {
        1
    } else {
        0
    };
    lemma_success_holds_checks(steps, env);
    assert(steps[3] is Check && steps[4] is Check);
    assert(steps[6 + extra] is Check && steps[7 + 2 * extra] is Check);
    let after = minted(token, to, amount);
    lemma_sum_insert(token.balances, to, (token.balance_of(to) + amount) as i128);
    assert(balance_in(token.balances, to) >= 0);
    lemma_sum_bounds(token.balances, to, to);
    assert forall|addr: Address| #[trigger] balance_in(after.balances, addr) >= 0 by {
        assert(balance_in(token.balances, addr) >= 0);
    }
}

/// A burn that goes through takes its amount from one balance and from the
/// supply.
pub proof fn burn_takes_exactly(
    token: TokenView,
    env: EnvView,
    spender: Option<Address>,
    from: Address,
    amount: i128,
)
    requires
        solvent(token),
        play(burn_steps(token, env, spender, from, amount), env).halt is None,
    ensures
        0 < amount <= token.balance_of(from),
        forall|addr: Address|
            #[trigger] burned(token, env, spender, from, amount).balance_of(addr)
                == token.balance_of(addr) - (if addr == from {
                amount as int
            } else {
                0
            }),
        burned(token, env, spender, from, amount).total_supply == token.total_supply - amount,
        solvent(burned(token, env, spender, from, amount)),
{
    let steps = burn_steps(token, env, spender, from, amount);
    let extra: int = if spender is Some {
        1
    } else {
        0
    };
    lemma_success_holds_checks(steps, env);
    assert(steps[1] is Check && steps[4 + extra] is Check);
    let after = burned(token, env, spender, from, amount);
    lemma_sum_insert(token.balances, from, (token.balance_of(from) - amount) as i128);
    lemma_sum_bounds(token.balances, from, from);
    assert forall|addr: Address| #[trigger] balance_in(after.balances, addr) >= 0 by {
        assert(balance_in(token.balances, addr) >= 0);
    }
}

/// Every operation that goes through keeps the balances in line with the
/// supply, and the supply within its cap.
pub proof fn operations_keep_solvency(operation: Operation, token: TokenView, env: EnvView)
    requires
        solvent(token),
        play(operation.steps(token, env), env).halt is None,
    ensures
        solvent(operation.outcome(token, env)),
{
    match operation {
        Operation::Transfer { from, to, amount } => {
            transfer_moves_exactly(token, env, None, from, single_leg(to, amount));
        },
        Operation::TransferFrom { spender, from, to, amount } => {
            transfer_moves_exactly(token, env, Some(spender), from, single_leg(to, amount));
        },
        Operation::BatchTransfer { from, recipients } => {
            transfer_moves_exactly(token, env, None, from, recipients@);
        },
        Operation::BatchTransferFrom { spender, from, recipients } => {
            transfer_moves_exactly(token, env, Some(spender), from, recipients@);
        },
        Operation::Mint { caller, to, amount } => {
            mint_adds_exactly(token, env, caller, to, amount);
        },
        Operation::Burn { from, amount } => {
            burn_takes_exactly(token, env, None, from, amount);
        },
        Operation::BurnFrom { spender, from, amount } => {
            burn_takes_exactly(token, env, Some(spender), from, amount);
        },
        _ => {},
    }
}

} // verus!
