//! Laws of moving tokens: consent, frozen accounts, the parties' approval, the
//! transfer lock and the supply cap.

use vstd::prelude::*;

use crate::balance::balance_in;
use crate::events::Event;
use crate::host::{ask, lemma_play_frame, play, Call, Effect, EnvView, Run, Step};
use crate::operation::{single_leg, Operation};
use crate::protocol::success_passes_every_step;
use crate::roles::{role_steps, ROLE_LIQUIDITY};
use crate::solvency::{
    burn_takes_exactly, lemma_pay, lemma_sum_bounds, lemma_transfer_validated, mint_adds_exactly,
    solvent, transfer_moves_exactly, validated_transfer_is_covered,
};
use crate::supply::{burn_steps, burned, mint_steps};
use crate::token::TokenView;
use crate::transfer::{
    all_positive, entered, events_steps, left, leg_steps, legs_steps, lemma_totals, paid_to, pay,
    plan_steps, recipient_steps, recipients_steps, sender_steps, total_of, transfer_steps,
    transferred, MAX_BATCH,
};
use crate::types::{Address, Halt, RecipientEntry, RwaError, Trap};

verus! {

broadcast use crate::host::group_play;

impl Operation {
    /// The account that the operation takes tokens from, and the spender that
    /// acts in its place, if there is one.
    pub open spec fn takes_from(self) -> Option<(Address, Option<Address>)> {
        match self {
            Operation::Transfer { from, .. } => Some((from, None)),
            Operation::TransferFrom { spender, from, .. } => Some((from, Some(spender))),
            Operation::BatchTransfer { from, .. } => Some((from, None)),
            Operation::BatchTransferFrom { spender, from, .. } => Some((from, Some(spender))),
            Operation::Burn { from, .. } => Some((from, None)),
            Operation::BurnFrom { spender, from, .. } => Some((from, Some(spender))),
            _ => None,
        }
    }
}

/// Whether tokens left `from` with its consent: it authorized the operation,
/// or a spender did whose allowance covers what left.
pub open spec fn consented(
    token: TokenView,
    env: EnvView,
    log: Seq<Effect>,
    from: Address,
    spender: Option<Address>,
    amount: int,
) -> bool {
    match spender {
        Some(spender) => {
            &&& log.contains(Effect::Call(Call::RequireAuth { addr: spender }))
            &&& token.allowance_of(from, spender, env.sequence).amount >= amount
        },
        None => log.contains(Effect::Call(Call::RequireAuth { addr: from })),
    }
}

proof fn lemma_transfer_consent(
    token: TokenView,
    env: EnvView,
    spender: Option<Address>,
    from: Address,
    recipients: Seq<RecipientEntry>,
    addr: Address,
)
    requires
        solvent(token),
        play(transfer_steps(token, env, spender, from, recipients), env).halt is None,
        transferred(token, env, spender, from, recipients).balance_of(addr) < token.balance_of(
            addr,
        ),
    ensures
        addr == from,
        !token.frozen_at(from),
        consented(
            token,
            env,
            play(transfer_steps(token, env, spender, from, recipients), env).env.log,
            from,
            spender,
            token.balance_of(addr) - transferred(
                token,
                env,
                spender,
                from,
                recipients,
            ).balance_of(addr),
        ),
{
    let steps = transfer_steps(token, env, spender, from, recipients);
    let after = transferred(token, env, spender, from, recipients);
    lemma_transfer_validated(token, env, spender, from, recipients);
    transfer_moves_exactly(token, env, spender, from, recipients);
    lemma_totals(recipients, recipients.len() as int, addr);
    assert(after.balance_of(addr) == token.balance_of(addr) + paid_to(recipients, addr) - (if addr
        == from {
        total_of(recipients)
    } else {
        0
    }));
    success_passes_every_step(steps, env, 1);
}

proof fn lemma_burn_consent(
    token: TokenView,
    env: EnvView,
    spender: Option<Address>,
    from: Address,
    amount: i128,
    addr: Address,
)
    requires
        solvent(token),
        play(burn_steps(token, env, spender, from, amount), env).halt is None,
        burned(token, env, spender, from, amount).balance_of(addr) < token.balance_of(addr),
    ensures
        addr == from,
        !token.frozen_at(from),
        consented(
            token,
            env,
            play(burn_steps(token, env, spender, from, amount), env).env.log,
            from,
            spender,
            token.balance_of(addr) - burned(token, env, spender, from, amount).balance_of(addr),
        ),
{
    let steps = burn_steps(token, env, spender, from, amount);
    let after = burned(token, env, spender, from, amount);
    burn_takes_exactly(token, env, spender, from, amount);
    assert(after.balance_of(addr) == token.balance_of(addr) - (if addr == from {
        amount as int
    } else {
        0
    }));
    success_passes_every_step(steps, env, 0);
    success_passes_every_step(steps, env, 2);
    if spender is Some {
        success_passes_every_step(steps, env, 4);
    }
}

/// Tokens leave an account only with its consent, and never while it is
/// frozen.
pub proof fn balances_fall_only_with_consent(
    operation: Operation,
    token: TokenView,
    env: EnvView,
    addr: Address,
)
    requires
        solvent(token),
        play(operation.steps(token, env), env).halt is None,
        operation.outcome(token, env).balance_of(addr) < token.balance_of(addr),
    ensures
        !token.frozen_at(addr),
        operation.takes_from() matches Some((from, spender)) && from == addr && consented(
            token,
            env,
            play(operation.steps(token, env), env).env.log,
            from,
            spender,
            token.balance_of(addr) - operation.outcome(token, env).balance_of(addr),
        ),
{
    match operation {
        Operation::Transfer { from, to, amount } => {
            lemma_transfer_consent(token, env, None, from, single_leg(to, amount), addr);
        },
        Operation::TransferFrom { spender, from, to, amount } => {
            lemma_transfer_consent(
                token,
                env,
                Some(spender),
                from,
                single_leg(to, amount),
                addr,
            );
        },
        Operation::BatchTransfer { from, recipients } => {
            lemma_transfer_consent(token, env, None, from, recipients@, addr);
        },
        Operation::BatchTransferFrom { spender, from, recipients } => {
            lemma_transfer_consent(token, env, Some(spender), from, recipients@, addr);
        },
        Operation::Mint { caller, to, amount } => {
            mint_adds_exactly(token, env, caller, to, amount);
            assert(operation.outcome(token, env).balance_of(addr) == token.balance_of(addr) + (
            if addr == to {
                amount as int
            } else {
                0
            }));
        },
        Operation::Burn { from, amount } => {
            lemma_burn_consent(token, env, None, from, amount, addr);
        },
        Operation::BurnFrom { spender, from, amount } => {
            lemma_burn_consent(token, env, Some(spender), from, amount, addr);
        },
        _ => {
            assert(operation.outcome(token, env).balances == token.balances);
        },
    }
}

/// The supply grows only by mints and shrinks only by burns, and the cap never
/// changes.
pub proof fn supply_changes_by_mints_and_burns(
    operation: Operation,
    token: TokenView,
    env: EnvView,
)
    requires
        solvent(token),
        play(operation.steps(token, env), env).halt is None,
    ensures
        operation.outcome(token, env).total_supply > token.total_supply ==> operation is Mint,
        operation.outcome(token, env).total_supply < token.total_supply ==> operation is Burn
            || operation is BurnFrom,
        operation.outcome(token, env).max_supply == token.max_supply,
{
    match operation {
        Operation::Mint { caller, to, amount } => {
            mint_adds_exactly(token, env, caller, to, amount);
        },
        Operation::Burn { from, amount } => {
            burn_takes_exactly(token, env, None, from, amount);
        },
        Operation::BurnFrom { spender, from, amount } => {
            burn_takes_exactly(token, env, Some(spender), from, amount);
        },
        _ => {},
    }
}

/// A single transfer is a batch of one leg.
pub proof fn single_transfer_is_batch_of_one(
    token: TokenView,
    env: EnvView,
    from: Address,
    to: Address,
    amount: i128,
    spender: Address,
    recipients: Vec<RecipientEntry>,
)
    requires
        recipients@ == single_leg(to, amount),
    ensures
        ({
            let single = Operation::Transfer { from, to, amount };
            let batch = Operation::BatchTransfer { from, recipients };
            &&& single.steps(token, env) == batch.steps(token, env)
            &&& single.outcome(token, env) == batch.outcome(token, env)
        }),
        ({
            let single = Operation::TransferFrom { spender, from, to, amount };
            let batch = Operation::BatchTransferFrom { spender, from, recipients };
            &&& single.steps(token, env) == batch.steps(token, env)
            &&& single.outcome(token, env) == batch.outcome(token, env)
        }),
{
}

/// A transfer to oneself changes no balance.
pub proof fn self_transfer_changes_no_balance(
    token: TokenView,
    env: EnvView,
    from: Address,
    amount: i128,
    addr: Address,
)
    requires
        solvent(token),
        play(
            transfer_steps(token, env, None, from, single_leg(from, amount)),
            env,
        ).halt is None,
    ensures
        transferred(token, env, None, from, single_leg(from, amount)).balance_of(addr)
            == token.balance_of(addr),
{
    let legs = single_leg(from, amount);
    transfer_moves_exactly(token, env, None, from, legs);
    assert(legs.drop_last() =~= seq![]);
    reveal_with_fuel(total_of, 2);
    reveal_with_fuel(paid_to, 2);
    assert(transferred(token, env, None, from, legs).balance_of(addr) == token.balance_of(addr)
        + paid_to(legs, addr) - (if addr == from {
        total_of(legs)
    } else {
        0
    }));
}

/// While a transfer is under way no other one is let in: it is aborted before
/// it asks or changes anything. A transfer that goes through leaves the lock
/// open.
pub proof fn transfers_do_not_nest(
    token: TokenView,
    env: EnvView,
    spender: Option<Address>,
    from: Address,
    recipients: Seq<RecipientEntry>,
)
    ensures
        token.transfer_lock ==> play(transfer_steps(token, env, spender, from, recipients), env)
            == (Run { env, halt: Some(Halt::Trap(Trap::TransferReentrant)) }),
        !transferred(token, env, spender, from, recipients).transfer_lock,
{
    let steps = transfer_steps(token, env, spender, from, recipients);
    assert(steps[0] == Step::Check(!token.transfer_lock, Halt::Trap(Trap::TransferReentrant)));
}

/// The guard lets one transfer in at a time. It refuses entry exactly if the
/// lock is set. Once one is in, a second entry is refused, and so is every
/// transfer, single or batch, direct or delegated. Once it has left, the next
/// one is let in, and entering and leaving has changed nothing.
pub proof fn guard_lets_one_in_at_a_time(token: TokenView, operation: Operation, env: EnvView)
    requires
        operation is Transfer || operation is TransferFrom || operation is BatchTransfer
            || operation is BatchTransferFrom,
    ensures
        entered(token) is Err <==> token.transfer_lock,
        entered(left(token)) is Ok,
        entered(token) matches Ok(inside) ==> {
            let nested = Run { env, halt: Some(Halt::Trap(Trap::TransferReentrant)) };
            &&& inside.transfer_lock
            &&& entered(inside) is Err
            &&& play(operation.steps(inside, env), env) == nested
            &&& left(inside) == token
            &&& entered(left(inside)) == entered(token)
        },
{
    if let Ok(inside) = entered(token) {
        match operation {
            Operation::Transfer { from, to, amount } => {
                transfers_do_not_nest(inside, env, None, from, single_leg(to, amount));
            },
            Operation::TransferFrom { spender, from, to, amount } => {
                transfers_do_not_nest(inside, env, Some(spender), from, single_leg(to, amount));
            },
            Operation::BatchTransfer { from, recipients } => {
                transfers_do_not_nest(inside, env, None, from, recipients@);
            },
            Operation::BatchTransferFrom { spender, from, recipients } => {
                transfers_do_not_nest(inside, env, Some(spender), from, recipients@);
            },
            _ => {},
        }
    }
}

/// The address whose authorization a transfer or a burn needs.
pub open spec fn authorizer(spender: Option<Address>, from: Address) -> Address {
    match spender {
        Some(spender) => spender,
        None => from,
    }
}

/// A frozen account sends nothing: an authorized transfer out of it, single or
/// batch, is refused with that error.
pub proof fn frozen_accounts_cannot_send(
    token: TokenView,
    env: EnvView,
    spender: Option<Address>,
    from: Address,
    recipients: Seq<RecipientEntry>,
)
    requires
        token.frozen_at(from),
    ensures
        play(transfer_steps(token, env, spender, from, recipients), env).halt is Some,
        !token.transfer_lock && ask(
            env,
            Call::RequireAuth { addr: authorizer(spender, from) },
        ).halt is None && 0 < recipients.len() <= MAX_BATCH ==> play(
            transfer_steps(token, env, spender, from, recipients),
            env,
        ).halt == Some(Halt::Error(RwaError::AccountFrozen)),
{
    reveal_with_fuel(play, 3);
}

/// A frozen account burns nothing: an authorized burn of a positive amount is
/// refused with that error.
#[verifier::rlimit(30)]
pub proof fn frozen_accounts_cannot_burn(
    token: TokenView,
    env: EnvView,
    spender: Option<Address>,
    from: Address,
    amount: i128,
)
    requires
        token.frozen_at(from),
    ensures
        play(burn_steps(token, env, spender, from, amount), env).halt is Some,
        ask(env, Call::RequireAuth { addr: authorizer(spender, from) }).halt is None && amount > 0
            ==> play(burn_steps(token, env, spender, from, amount), env).halt == Some(
            Halt::Error(RwaError::AccountFrozen),
        ),
{
    reveal_with_fuel(play, 5);
}

/// What is known of a validated leg.
proof fn lemma_leg_validated(
    token: TokenView,
    from: Address,
    recipients: Seq<RecipientEntry>,
    i: int,
    j: int,
    env: EnvView,
)
    requires
        0 <= i <= j < recipients.len(),
        play(recipients_steps(token, from, recipients, i), env).halt is None,
    ensures
        !token.frozen_at(recipients[j].to),
        ({
            let log = play(recipients_steps(token, from, recipients, i), env).env.log;
            let addr = recipients[j].to;
            let amount = recipients[j].amount;
            &&& log.contains(
                Effect::Call(Call::IsApproved { registry: token.kyc_registry, addr }),
            )
            &&& log.contains(
                Effect::Call(
                    Call::EvaluateTransfer {
                        engine: token.compliance_engine,
                        from,
                        to: addr,
                        amount,
                    },
                ),
            )
        }),
    decreases recipients.len() - i,
{
    let steps = recipients_steps(token, from, recipients, i);
    if i == j {
        success_passes_every_step(steps, env, 1);
        success_passes_every_step(steps, env, 2);
        success_passes_every_step(steps, env, 3);
    } else {
        let first = recipient_steps(token, from, recipients[i].to, recipients[i].amount).push(
            Step::Check(
                total_of(recipients.take(i + 1)) <= i128::MAX,
                Halt::Error(RwaError::BatchAmountOverflow),
            ),
        );
        lemma_leg_validated(token, from, recipients, i + 1, j, play(first, env).env);
    }
}

/// A transfer goes through only if no party is frozen, the KYC registry was
/// asked about the sender and every recipient, and the compliance engine about
/// every leg.
#[verifier::rlimit(30)]
pub proof fn transfers_are_validated(
    token: TokenView,
    env: EnvView,
    spender: Option<Address>,
    from: Address,
    recipients: Seq<RecipientEntry>,
    i: int,
)
    requires
        play(transfer_steps(token, env, spender, from, recipients), env).halt is None,
        0 <= i < recipients.len(),
    ensures
        !token.frozen_at(from),
        !token.frozen_at(recipients[i].to),
        recipients[i].amount > 0,
        ({
            let log = play(transfer_steps(token, env, spender, from, recipients), env).env.log;
            let registry = token.kyc_registry;
            let engine = token.compliance_engine;
            let leg = recipients[i];
            &&& log.contains(Effect::Call(Call::IsApproved { registry, addr: from }))
            &&& log.contains(Effect::Call(Call::IsApproved { registry, addr: leg.to }))
            &&& log.contains(
                Effect::Call(
                    Call::EvaluateTransfer { engine, from, to: leg.to, amount: leg.amount },
                ),
            )
        }),
{
    let steps = transfer_steps(token, env, spender, from, recipients);
    lemma_transfer_validated(token, env, spender, from, recipients);
    assert(steps[5] == Step::Ask(Call::IsApproved { registry: token.kyc_registry, addr: from }));
    success_passes_every_step(steps, env, 5);
    let lead = steps.take(6);
    let legs = recipients_steps(token, from, recipients, 0);
    let rest = steps.skip(6 + legs.len() as int);
    assert(steps =~= lead + legs + rest);
    let start = play(lead, env).env;
    lemma_leg_validated(token, from, recipients, 0, i, start);
    let middle = play(legs, start).env;
    lemma_play_frame(rest, middle);
    let end = play(rest, middle).env;
    assert forall|effect: Effect| #[trigger] middle.log.contains(effect) implies end.log.contains(
        effect,
    ) by {
        let k = middle.log.index_of(effect);
        assert(end.log[k] == middle.log[k]);
    }
}

/// A mint goes through only if the KYC registry was asked about the recipient,
/// and the compliance engine about a recipient that held nothing.
pub proof fn mints_are_validated(
    token: TokenView,
    env: EnvView,
    caller: Address,
    to: Address,
    amount: i128,
)
    requires
        play(mint_steps(token, env, caller, to, amount), env).halt is None,
    ensures
        ({
            let log = play(mint_steps(token, env, caller, to, amount), env).env.log;
            let engine = token.compliance_engine;
            let question = Call::CanTransfer { engine, from: env.contract, to, amount };
            &&& log.contains(
                Effect::Call(Call::IsApproved { registry: token.kyc_registry, addr: to }),
            )
            &&& token.balance_of(to) == 0 ==> log.contains(Effect::Call(question))
        }),
{
    let steps = mint_steps(token, env, caller, to, amount);
    success_passes_every_step(steps, env, 5);
    success_passes_every_step(steps, env, 6);
}

/// A burn goes through only if the KYC registry was asked about the owner.
pub proof fn burns_are_validated(
    token: TokenView,
    env: EnvView,
    spender: Option<Address>,
    from: Address,
    amount: i128,
)
    requires
        play(burn_steps(token, env, spender, from, amount), env).halt is None,
    ensures
        play(burn_steps(token, env, spender, from, amount), env).env.log.contains(
            Effect::Call(Call::IsApproved { registry: token.kyc_registry, addr: from }),
        ),
{
    success_passes_every_step(burn_steps(token, env, spender, from, amount), env, 3);
}

/// A mint that would take the supply past its cap is refused with that error,
/// if its caller may mint.
pub proof fn mint_stops_at_the_cap(
    token: TokenView,
    env: EnvView,
    caller: Address,
    to: Address,
    amount: i128,
)
    requires
        amount > 0,
        token.max_supply > 0,
        token.total_supply + amount > token.max_supply,
        play(role_steps(token, caller, ROLE_LIQUIDITY@), env).halt is None,
    ensures
        play(mint_steps(token, env, caller, to, amount), env).halt == Some(
            Halt::Error(RwaError::ExceedsMaxSupply),
        ),
{
    reveal_with_fuel(play, 4);
}

/// Whether a run was aborted because a number would have left its range.
pub open spec fn overflowed(run: Run) -> bool {
    run.halt == Some(Halt::Trap(Trap::ArithmeticOverflow))
}

#[verifier::rlimit(30)]
proof fn lemma_recipients_never_overflow(
    token: TokenView,
    from: Address,
    recipients: Seq<RecipientEntry>,
    i: int,
    env: EnvView,
)
    ensures
        !overflowed(play(recipients_steps(token, from, recipients, i), env)),
    decreases recipients.len() - i,
{
    reveal_with_fuel(play, 5);
    if i < recipients.len() {
        let first = recipient_steps(token, from, recipients[i].to, recipients[i].amount).push(
            Step::Check(
                total_of(recipients.take(i + 1)) <= i128::MAX,
                Halt::Error(RwaError::BatchAmountOverflow),
            ),
        );
        lemma_recipients_never_overflow(token, from, recipients, i + 1, play(first, env).env);
    }
}

proof fn lemma_legs_never_overflow(
    token: TokenView,
    from: Address,
    recipients: Seq<RecipientEntry>,
    i: int,
    env: EnvView,
)
    requires
        solvent(token),
        all_positive(recipients),
        total_of(recipients) <= token.balance_of(from),
        0 <= i,
    ensures
        !overflowed(
            play(
                legs_steps(token.balances, token.compliance_engine, from, recipients, i),
                env,
            ),
        ),
    decreases recipients.len() - i,
{
    reveal_with_fuel(play, 2);
    if i < recipients.len() {
        let engine = token.compliance_engine;
        let done = recipients.take(i);
        let next = recipients.take(i + 1);
        let leg = recipients[i];
        assert(next.drop_last() =~= done);
        assert(next.last() == leg);
        lemma_totals(recipients, i, from);
        lemma_totals(recipients, i + 1, from);
        assert(all_positive(done));
        lemma_totals(done, i, from);
        lemma_pay(token.balances, from, done);
        let now = pay(token.balances, from, done);
        assert(balance_in(now, from) >= leg.amount);
        lemma_sum_bounds(now, leg.to, from);
        let first = leg_steps(now, engine, from, leg);
        lemma_legs_never_overflow(token, from, recipients, i + 1, play(first, env).env);
    }
}

proof fn lemma_events_never_stop(
    from: Address,
    recipients: Seq<RecipientEntry>,
    timestamp: u64,
    i: int,
    env: EnvView,
)
    ensures
        play(events_steps(from, recipients, timestamp, i), env).halt is None,
    decreases recipients.len() - i,
{
    reveal_with_fuel(play, 2);
    if i < recipients.len() {
        let leg = recipients[i];
        let event = Event::Transfer { from, to: leg.to, amount: leg.amount, timestamp };
        lemma_events_never_stop(from, recipients, timestamp, i + 1, env.publish(event));
        assert(seq![Step::Emit(event)].drop_first() =~= seq![]);
    }
}

/// Where balances and supply agree, no transfer is aborted because a balance
/// would leave its range: what is held altogether is in range.
#[verifier::rlimit(30)]
pub proof fn transfers_never_overflow(
    token: TokenView,
    env: EnvView,
    spender: Option<Address>,
    from: Address,
    recipients: Seq<RecipientEntry>,
)
    requires
        solvent(token),
    ensures
        !overflowed(play(transfer_steps(token, env, spender, from, recipients), env)),
{
    reveal_with_fuel(play, 3);
    let opening = seq![
        Step::Check(!token.transfer_lock, Halt::Trap(Trap::TransferReentrant)),
        Step::Ask(Call::RequireAuth { addr: authorizer(spender, from) }),
    ];
    let authorized = play(opening, env).env;
    let limits = seq![
        Step::Check(recipients.len() > 0, Halt::Error(RwaError::EmptyBatch)),
        Step::Check(recipients.len() <= MAX_BATCH, Halt::Error(RwaError::BatchTooLarge)),
    ];
    let plan = plan_steps(token, from, recipients);
    let vetted = play(limits + sender_steps(token, from), authorized).env;
    lemma_recipients_never_overflow(token, from, recipients, 0, vetted);
    assert(!overflowed(play(plan, authorized)));
    if play(plan, authorized).halt is None {
        validated_transfer_is_covered(token, from, recipients, authorized);
        let planned = play(plan, authorized).env;
        lemma_legs_never_overflow(token, from, recipients, 0, planned);
        let engine = token.compliance_engine;
        let moved = play(legs_steps(token.balances, engine, from, recipients, 0), planned).env;
        lemma_events_never_stop(from, recipients, env.timestamp, 0, moved);
        lemma_events_never_stop(
            from,
            recipients,
            env.timestamp,
            0,
            ask(moved, Call::UnregisterHolder { engine, addr: from }).env,
        );
    }
}

/// Where balances and supply agree, no burn is aborted because the supply
/// would leave its range.
#[verifier::rlimit(30)]
pub proof fn burns_never_overflow(
    token: TokenView,
    env: EnvView,
    spender: Option<Address>,
    from: Address,
    amount: i128,
)
    requires
        solvent(token),
    ensures
        !overflowed(play(burn_steps(token, env, spender, from, amount), env)),
{
    reveal_with_fuel(play, 5);
    lemma_sum_bounds(token.balances, from, from);
}

/// Where balances and supply agree, a mint is aborted because a number would
/// leave its range only if there is no cap and the supply would do so.
#[verifier::rlimit(30)]
pub proof fn mints_overflow_with_the_supply_alone(
    token: TokenView,
    env: EnvView,
    caller: Address,
    to: Address,
    amount: i128,
)
    requires
        solvent(token),
        token.max_supply > 0 || token.total_supply + amount <= i128::MAX,
    ensures
        !overflowed(play(mint_steps(token, env, caller, to, amount), env)),
{
    reveal_with_fuel(play, 4);
    lemma_sum_bounds(token.balances, to, to);
}

} // verus!
