//! Laws of allowances.

use vstd::prelude::*;

use crate::allowance::{allowance_in, approve_steps, spend_in};
use crate::host::{ask, play, Call, EnvView};
use crate::operation::{single_leg, Operation};
use crate::protocol::lemma_success_holds_checks;
use crate::solvency::lemma_transfer_validated;
use crate::supply::{burn_steps, burned};
use crate::token::TokenView;
use crate::transfer::{total_of, transfer_steps, transferred};
use crate::types::{Address, AllowanceValue, Halt, RecipientEntry, RwaError};

verus! {

broadcast use crate::host::group_play;

/// An approval sets the allowance of one spender, up to its expiration ledger:
/// there and later nothing is left of it. The allowances of others stay.
pub proof fn approval_reads_back(
    token: TokenView,
    env: EnvView,
    from: Address,
    spender: Address,
    amount: i128,
    expiration_ledger: u32,
    sequence: u32,
    owner: Address,
    other: Address,
)
    ensures
        ({
            let approve = Operation::Approve { from, spender, amount, expiration_ledger };
            let approved = approve.outcome(token, env);
            &&& approved.allowance_of(from, spender, sequence).amount == (if sequence
                < expiration_ledger {
                amount
            } else {
                0
            })
            &&& (owner, other) != (from, spender) ==> approved.allowance_of(owner, other, sequence)
                == token.allowance_of(owner, other, sequence)
        }),
{
}

/// An owner's approval is refused only if it is positive and its expiration
/// ledger has passed.
pub proof fn approval_must_not_be_expired(
    from: Address,
    spender: Address,
    amount: i128,
    expiration_ledger: u32,
    env: EnvView,
)
    requires
        ask(env, Call::RequireAuth { addr: from }).halt is None,
    ensures
        play(
            approve_steps(from, spender, amount, expiration_ledger, env.sequence),
            env,
        ).halt == (if amount > 0 && expiration_ledger < env.sequence {
            Some(Halt::Error(RwaError::AllowanceExpired))
        } else {
            None
        }),
{
    reveal_with_fuel(play, 4);
}

/// What using an allowance does: it falls by exactly what was used, at every
/// ledger before its expiration ledger, an allowance that is used up is gone,
/// and the allowances of others stay.
pub open spec fn used_exactly(
    before: TokenView,
    after: TokenView,
    sequence: u32,
    from: Address,
    spender: Address,
    amount: int,
) -> bool {
    &&& before.allowance_of(from, spender, sequence).amount >= amount
    &&& after.allowance_of(from, spender, sequence).amount == before.allowance_of(
        from,
        spender,
        sequence,
    ).amount - amount
    &&& forall|ledger: u32|
        #[trigger] after.allowance_of(from, spender, ledger).amount == (if ledger
            < before.allowances[(from, spender)].expiration_ledger {
            before.allowances[(from, spender)].amount - amount
        } else {
            0
        })
    &&& before.allowance_of(from, spender, sequence).amount == amount
        ==> !after.allowances.contains_key((from, spender))
    &&& forall|owner: Address, other: Address, ledger: u32|
        (owner, other) != (from, spender) ==> #[trigger] after.allowance_of(owner, other, ledger)
            == before.allowance_of(owner, other, ledger)
}

/// The usable allowance is the one that is stored, at every ledger before its
/// expiration ledger, and nothing from then on. Without an entry there is none.
pub proof fn allowances_last_until_they_expire(
    token: TokenView,
    from: Address,
    spender: Address,
    ledger: u32,
)
    ensures
        ({
            let now = token.allowance_of(from, spender, ledger).amount;
            &&& !token.allowances.contains_key((from, spender)) ==> now == 0
            &&& token.allowances.contains_key((from, spender)) ==> {
                let given = token.allowances[(from, spender)];
                &&& ledger < given.expiration_ledger ==> now == given.amount
                &&& ledger >= given.expiration_ledger ==> now == 0
            }
        }),
{
}

/// Using a part of an allowance takes that part from it at every ledger, past
/// or future, at which it can be used, and leaves its expiration ledger alone.
/// The allowances of others stay.
pub proof fn use_keeps_the_term(
    allowances: Map<(Address, Address), AllowanceValue>,
    from: Address,
    spender: Address,
    sequence: u32,
    amount: i128,
    ledger: u32,
    owner: Address,
    other: Address,
)
    requires
        allowances.contains_key((from, spender)),
        sequence < allowances[(from, spender)].expiration_ledger,
        0 < amount <= allowances[(from, spender)].amount,
    ensures
        ({
            let given = allowances[(from, spender)];
            let after = spend_in(allowances, from, spender, sequence, amount as int);
            &&& allowance_in(after, from, spender, ledger).amount == (if ledger
                < given.expiration_ledger {
                given.amount - amount
            } else {
                0
            })
            &&& after.contains_key((from, spender)) <==> amount < given.amount
            &&& amount < given.amount ==> after[(from, spender)] == AllowanceValue {
                amount: (given.amount - amount) as i128,
                expiration_ledger: given.expiration_ledger,
            }
            &&& (owner, other) != (from, spender) ==> {
                &&& after.contains_key((owner, other)) == allowances.contains_key((owner, other))
                &&& after[(owner, other)] == allowances[(owner, other)]
            }
        }),
{
}

/// Using an allowance twice is using it once for both amounts.
pub proof fn uses_add_up(
    allowances: Map<(Address, Address), AllowanceValue>,
    from: Address,
    spender: Address,
    sequence: u32,
    first: i128,
    second: i128,
)
    requires
        allowances.contains_key((from, spender)),
        sequence < allowances[(from, spender)].expiration_ledger,
        0 < first,
        0 < second,
        first + second <= allowances[(from, spender)].amount,
    ensures
        spend_in(
            spend_in(allowances, from, spender, sequence, first as int),
            from,
            spender,
            sequence,
            second as int,
        ) == spend_in(allowances, from, spender, sequence, first + second),
{
    assert(spend_in(
        spend_in(allowances, from, spender, sequence, first as int),
        from,
        spender,
        sequence,
        second as int,
    ) =~= spend_in(allowances, from, spender, sequence, first + second));
}

/// A delegated transfer uses the spender's allowance for its total, once for
/// the whole batch.
pub proof fn delegated_transfer_uses_the_allowance(
    token: TokenView,
    env: EnvView,
    spender: Address,
    from: Address,
    recipients: Seq<RecipientEntry>,
)
    requires
        play(transfer_steps(token, env, Some(spender), from, recipients), env).halt is None,
    ensures
        used_exactly(
            token,
            transferred(token, env, Some(spender), from, recipients),
            env.sequence,
            from,
            spender,
            total_of(recipients),
        ),
{
    lemma_transfer_validated(token, env, Some(spender), from, recipients);
}

/// A delegated burn uses the spender's allowance for its amount.
pub proof fn delegated_burn_uses_the_allowance(
    token: TokenView,
    env: EnvView,
    spender: Address,
    from: Address,
    amount: i128,
)
    requires
        play(burn_steps(token, env, Some(spender), from, amount), env).halt is None,
    ensures
        used_exactly(
            token,
            burned(token, env, Some(spender), from, amount),
            env.sequence,
            from,
            spender,
            amount as int,
        ),
{
    let steps = burn_steps(token, env, Some(spender), from, amount);
    lemma_success_holds_checks(steps, env);
    assert(steps[1] is Check && steps[4] is Check);
}

proof fn lemma_approval_authorized(
    from: Address,
    spender: Address,
    amount: i128,
    expiration_ledger: u32,
    env: EnvView,
)
    requires
        play(
            approve_steps(from, spender, amount, expiration_ledger, env.sequence),
            env,
        ).halt is None,
    ensures
        ask(env, Call::RequireAuth { addr: from }).halt is None,
{
    reveal_with_fuel(play, 2);
}

proof fn lemma_burn_positive(
    token: TokenView,
    env: EnvView,
    spender: Address,
    from: Address,
    amount: i128,
)
    requires
        play(burn_steps(token, env, Some(spender), from, amount), env).halt is None,
    ensures
        amount > 0,
{
    let steps = burn_steps(token, env, Some(spender), from, amount);
    lemma_success_holds_checks(steps, env);
    assert(steps[1] is Check);
}

/// No allowance grows but by an approval of its owner.
pub proof fn only_approval_raises_an_allowance(
    operation: Operation,
    token: TokenView,
    env: EnvView,
    owner: Address,
    spender: Address,
)
    requires
        play(operation.steps(token, env), env).halt is None,
        operation.outcome(token, env).allowance_of(owner, spender, env.sequence).amount
            > token.allowance_of(owner, spender, env.sequence).amount,
    ensures
        operation matches Operation::Approve { from, spender: to, amount, expiration_ledger }
            && from == owner && to == spender,
        ask(env, Call::RequireAuth { addr: owner }).halt is None,
{
    match operation {
        Operation::Approve { from, spender: to, amount, expiration_ledger } => {
            lemma_approval_authorized(from, to, amount, expiration_ledger, env);
        },
        Operation::TransferFrom { spender: by, from, to, amount } => {
            delegated_transfer_uses_the_allowance(
                token,
                env,
                by,
                from,
                single_leg(to, amount),
            );
            lemma_transfer_validated(token, env, Some(by), from, single_leg(to, amount));
        },
        Operation::BatchTransferFrom { spender: by, from, recipients } => {
            delegated_transfer_uses_the_allowance(token, env, by, from, recipients@);
            lemma_transfer_validated(token, env, Some(by), from, recipients@);
        },
        Operation::BurnFrom { spender: by, from, amount } => {
            delegated_burn_uses_the_allowance(token, env, by, from, amount);
            lemma_burn_positive(token, env, by, from, amount);
        },
        _ => {
            assert(operation.outcome(token, env).allowances == token.allowances);
        },
    }
}

} // verus!
