//! What a transfer does, case by case: for which reason it is refused, what it
//! asks and tells in which order, and what it moves.

use vstd::prelude::*;

use crate::balance::balance_in;
use crate::compliance::TransferDecision;
use crate::events::Event;
use crate::host::{capacity, play, Call, Effect, EnvView, Reply, Step};
use crate::laws::exact::{first_of, unless};
use crate::laws::issuance::{stored, usable};
use crate::laws::verdicts::verdict;
use crate::operation::Operation;
use crate::solvency::{lemma_pay, lemma_sum_bounds, solvent, transfer_moves_exactly};
use crate::token::TokenView;
use crate::transfer::{
    all_positive, events_steps, execute_steps, leg_steps, legs_steps, lemma_totals, newcomers,
    paid_to, pay, plan_steps, recipient_steps, recipients_steps, sender_after, sender_steps,
    total_of, totals_steps, transfer_steps, transferred,
};
use crate::types::{Address, AllowanceValue, Halt, RecipientEntry, RwaError, Trap};

verus! {

broadcast use crate::host::group_play;

/// The amounts of all legs, added up.
pub open spec fn sum(legs: Seq<RecipientEntry>) -> int {
    legs.fold_left(0int, |so_far: int, leg: RecipientEntry| so_far + leg.amount)
}

/// The amounts of the legs to `addr`, added up.
pub open spec fn share(legs: Seq<RecipientEntry>, addr: Address) -> int {
    legs.fold_left(
        0int,
        |so_far: int, leg: RecipientEntry|
            if leg.to == addr {
                so_far + leg.amount
            } else {
                so_far
            },
    )
}

/// The total of a transfer is the sum of its legs.
pub proof fn total_is_the_sum(legs: Seq<RecipientEntry>)
    ensures
        total_of(legs) == sum(legs),
    decreases legs.len(),
{
    reveal_with_fuel(Seq::fold_left, 2);
    if legs.len() > 0 {
        total_is_the_sum(legs.drop_last());
    }
}

/// What an address is paid by a transfer is the sum of the legs to it.
pub proof fn share_is_the_sum(legs: Seq<RecipientEntry>, addr: Address)
    ensures
        paid_to(legs, addr) == share(legs, addr),
    decreases legs.len(),
{
    reveal_with_fuel(Seq::fold_left, 2);
    if legs.len() > 0 {
        share_is_the_sum(legs.drop_last(), addr);
    }
}

/// The accounts other than the sender that are paid and hold nothing yet.
pub open spec fn arrivals(
    balances: Map<Address, i128>,
    from: Address,
    legs: Seq<RecipientEntry>,
) -> Set<Address> {
    Set::new(
        |addr: Address|
            addr != from && stored(balances, addr) == 0 && exists|i: int|
                0 <= i < legs.len() && (#[trigger] legs[i]).to == addr,
    )
}

proof fn lemma_arrivals(
    balances: Map<Address, i128>,
    from: Address,
    legs: Seq<RecipientEntry>,
)
    ensures
        newcomers(balances, from, legs) == arrivals(balances, from, legs),
{
    let listed = legs.map_values(|r: RecipientEntry| r.to);
    assert forall|addr: Address| newcomers(balances, from, legs).contains(addr) == arrivals(
        balances,
        from,
        legs,
    ).contains(addr) by {
        if newcomers(balances, from, legs).contains(addr) {
            let i = choose|i: int| 0 <= i < listed.len() && listed[i] == addr;
            assert(legs[i].to == addr);
        }
        if arrivals(balances, from, legs).contains(addr) {
            let i = choose|i: int| 0 <= i < legs.len() && (#[trigger] legs[i]).to == addr;
            assert(listed[i] == addr);
        }
    }
    assert(newcomers(balances, from, legs) =~= arrivals(balances, from, legs));
}

/// Whether an account is frozen.
pub open spec fn barred(token: TokenView, addr: Address) -> bool {
    token.frozen.contains_key(addr) && token.frozen[addr]
}

/// Why the `i`-th leg is refused. The answers about it are at position `k` of
/// the inbox and behind it.
pub open spec fn leg_refusal(
    token: TokenView,
    inbox: Seq<Reply>,
    k: int,
    from: Address,
    legs: Seq<RecipientEntry>,
    i: int,
) -> Option<Halt> {
    let to = legs[i].to;
    let amount = legs[i].amount;
    first_of(
        first_of(
            unless(amount > 0, Halt::Error(RwaError::NegativeAmount)),
            unless(!barred(token, to), Halt::Error(RwaError::AccountFrozen)),
        ),
        first_of(
            first_of(
                verdict(Call::IsApproved { registry: token.kyc_registry, addr: to }, inbox, k),
                verdict(
                    Call::EvaluateTransfer { engine: token.compliance_engine, from, to, amount },
                    inbox,
                    k + 1,
                ),
            ),
            unless(
                sum(legs.take(i + 1)) <= i128::MAX,
                Halt::Error(RwaError::BatchAmountOverflow),
            ),
        ),
    )
}

/// Why the legs from the `i`-th on are refused: the first one that is refused
/// decides.
pub open spec fn legs_refusal(
    token: TokenView,
    inbox: Seq<Reply>,
    k: int,
    from: Address,
    legs: Seq<RecipientEntry>,
    i: int,
) -> Option<Halt>
    decreases legs.len() - i,
{
    if i >= legs.len() {
        None
    } else {
        first_of(
            leg_refusal(token, inbox, k, from, legs, i),
            legs_refusal(token, inbox, k + 2, from, legs, i + 1),
        )
    }
}

/// What is asked about the legs from the `i`-th on.
pub open spec fn questions(
    token: TokenView,
    from: Address,
    legs: Seq<RecipientEntry>,
    i: int,
) -> Seq<Effect>
    decreases legs.len() - i,
{
    if i >= legs.len() {
        seq![]
    } else {
        seq![
            Effect::Call(Call::IsApproved { registry: token.kyc_registry, addr: legs[i].to }),
            Effect::Call(
                Call::EvaluateTransfer {
                    engine: token.compliance_engine,
                    from,
                    to: legs[i].to,
                    amount: legs[i].amount,
                },
            ),
        ] + questions(token, from, legs, i + 1)
    }
}

proof fn lemma_leg(
    token: TokenView,
    inbox: Seq<Reply>,
    k: int,
    from: Address,
    legs: Seq<RecipientEntry>,
    i: int,
    env: EnvView,
)
    requires
        0 <= k <= inbox.len(),
        env.inbox == inbox.skip(k),
    ensures
        ({
            let steps = recipient_steps(token, from, legs[i].to, legs[i].amount).push(
                Step::Check(
                    total_of(legs.take(i + 1)) <= i128::MAX,
                    Halt::Error(RwaError::BatchAmountOverflow),
                ),
            );
            let run = play(steps, env);
            &&& run.halt == leg_refusal(token, inbox, k, from, legs, i)
            &&& run.halt is None ==> {
                &&& k + 2 <= inbox.len()
                &&& run.env == EnvView {
                    inbox: inbox.skip(k + 2),
                    log: env.log + seq![
                        Effect::Call(
                            Call::IsApproved { registry: token.kyc_registry, addr: legs[i].to },
                        ),
                        Effect::Call(
                            Call::EvaluateTransfer {
                                engine: token.compliance_engine,
                                from,
                                to: legs[i].to,
                                amount: legs[i].amount,
                            },
                        ),
                    ],
                    ..env
                }
            }
        }),
{
    reveal_with_fuel(play, 5);
    total_is_the_sum(legs.take(i + 1));
    let steps = recipient_steps(token, from, legs[i].to, legs[i].amount);
    let run = play(steps, env);
    if run.halt is None {
        assert(run.env.inbox =~= inbox.skip(k + 2));
    }
}

proof fn lemma_legs(
    token: TokenView,
    inbox: Seq<Reply>,
    k: int,
    from: Address,
    legs: Seq<RecipientEntry>,
    i: int,
    env: EnvView,
)
    requires
        0 <= i <= legs.len(),
        0 <= k <= inbox.len(),
        env.inbox == inbox.skip(k),
    ensures
        ({
            let run = play(recipients_steps(token, from, legs, i), env);
            &&& run.halt == legs_refusal(token, inbox, k, from, legs, i)
            &&& run.halt is None ==> {
                &&& k + 2 * (legs.len() - i) <= inbox.len()
                &&& run.env == EnvView {
                    inbox: inbox.skip(k + 2 * (legs.len() - i)),
                    log: env.log + questions(token, from, legs, i),
                    ..env
                }
            }
        }),
    decreases legs.len() - i,
{
    if i < legs.len() {
        let first = recipient_steps(token, from, legs[i].to, legs[i].amount).push(
            Step::Check(
                total_of(legs.take(i + 1)) <= i128::MAX,
                Halt::Error(RwaError::BatchAmountOverflow),
            ),
        );
        lemma_leg(token, inbox, k, from, legs, i, env);
        let next = play(first, env).env;
        if play(first, env).halt is None {
            lemma_legs(token, inbox, k + 2, from, legs, i + 1, next);
            assert(next.log + questions(token, from, legs, i + 1) =~= env.log + questions(
                token,
                from,
                legs,
                i,
            ));
        }
    } else {
        assert(env.log + questions(token, from, legs, i) =~= env.log);
    }
}

/// Why the engine's holder cap refuses `arriving` new holders, of which one
/// takes the place of the sender if that leaves: a cap of zero is none.
pub open spec fn cap_refusal(
    engine: Address,
    inbox: Seq<Reply>,
    k: int,
    arriving: nat,
    leaving: bool,
) -> Option<Halt> {
    let cap = inbox[k]->Rules_0.max_holders;
    let count = inbox[k + 1]->Count_0;
    if arriving == 0 {
        None
    } else {
        first_of(
            verdict(Call::GetRules { engine }, inbox, k),
            if cap == 0 {
                None
            } else {
                first_of(
                    verdict(Call::HolderCount { engine }, inbox, k + 1),
                    unless(
                        cap == u32::MAX || count + arriving <= cap || (leaving && count > 0 && count
                            + arriving - 1 <= cap),
                        Halt::Error(RwaError::HolderLimitExceeded),
                    ),
                )
            },
        )
    }
}

/// What is asked about the holder cap.
pub open spec fn cap_questions(
    engine: Address,
    inbox: Seq<Reply>,
    k: int,
    arriving: nat,
) -> Seq<Effect> {
    if arriving == 0 {
        seq![]
    } else if inbox[k]->Rules_0.max_holders == 0 {
        seq![Effect::Call(Call::GetRules { engine })]
    } else {
        seq![Effect::Call(Call::GetRules { engine }), Effect::Call(Call::HolderCount { engine })]
    }
}

/// The holder cap is looked up only for new holders, and the count only where
/// there is a cap. The cap holds for the count with the new holders and
/// without a leaving sender.
pub proof fn cap_decides(
    env: EnvView,
    inbox: Seq<Reply>,
    k: int,
    engine: Address,
    arriving: nat,
    leaving: bool,
)
    requires
        0 <= k <= inbox.len(),
        env.inbox == inbox.skip(k),
    ensures
        ({
            let run = capacity(env, engine, arriving, leaving);
            let asked = cap_questions(engine, inbox, k, arriving);
            &&& run.halt == cap_refusal(engine, inbox, k, arriving, leaving)
            &&& run.halt is None ==> {
                &&& k + asked.len() <= inbox.len()
                &&& run.env == EnvView {
                    inbox: inbox.skip(k + asked.len()),
                    log: env.log + asked,
                    ..env
                }
            }
        }),
{
    let run = capacity(env, engine, arriving, leaving);
    let asked = cap_questions(engine, inbox, k, arriving);
    if run.halt is None {
        assert(run.env.inbox =~= inbox.skip(k + asked.len()));
    }
}

/// Why one of `number` messages to the engine fails the operation. The answers
/// to them start at position `k` of the inbox.
pub open spec fn messages_refusal(inbox: Seq<Reply>, k: int, number: nat) -> Option<Halt> {
    if exists|j: int| k <= j < k + number && j < inbox.len() && #[trigger] inbox[j] is Failed {
        Some(Halt::Error(RwaError::ComplianceEngineUnavailable))
    } else {
        unless(k + number <= inbox.len(), Halt::Pending)
    }
}

/// What the engine is told of new holders by the legs from the `i`-th on: the
/// first leg to an account that holds nothing makes it a holder.
pub open spec fn notices(
    balances: Map<Address, i128>,
    engine: Address,
    from: Address,
    legs: Seq<RecipientEntry>,
    i: int,
) -> Seq<Effect>
    decreases legs.len() - i,
{
    if i >= legs.len() {
        seq![]
    } else {
        (if legs[i].to != from && stored(balances, legs[i].to) == 0 && forall|j: int|
            0 <= j < i ==> (#[trigger] legs[j]).to != legs[i].to {
            seq![Effect::Call(Call::RegisterHolder { engine, addr: legs[i].to })]
        } else {
            seq![]
        }) + notices(balances, engine, from, legs, i + 1)
    }
}

/// Positive legs pay an address something exactly if one of them is to it.
proof fn lemma_paid_iff_listed(legs: Seq<RecipientEntry>, addr: Address)
    requires
        all_positive(legs),
    ensures
        paid_to(legs, addr) >= 0,
        paid_to(legs, addr) > 0 <==> exists|j: int|
            0 <= j < legs.len() && (#[trigger] legs[j]).to == addr,
    decreases legs.len(),
{
    if legs.len() > 0 {
        let rest = legs.drop_last();
        let last = legs.len() - 1;
        assert(legs[last] == legs.last());
        assert(all_positive(rest)) by {
            assert forall|j: int| 0 <= j < rest.len() implies (#[trigger] rest[j]).amount > 0 by {
                assert(rest[j] == legs[j]);
            }
        }
        lemma_paid_iff_listed(rest, addr);
        if exists|j: int| 0 <= j < legs.len() && (#[trigger] legs[j]).to == addr {
            let j = choose|j: int| 0 <= j < legs.len() && (#[trigger] legs[j]).to == addr;
            if j < last {
                assert(rest[j].to == addr);
            }
        }
        if paid_to(rest, addr) > 0 {
            let j = choose|j: int| 0 <= j < rest.len() && (#[trigger] rest[j]).to == addr;
            assert(legs[j].to == addr);
        }
    }
}

proof fn lemma_payment(
    token: TokenView,
    inbox: Seq<Reply>,
    k: int,
    from: Address,
    legs: Seq<RecipientEntry>,
    i: int,
    env: EnvView,
)
    requires
        solvent(token),
        all_positive(legs),
        total_of(legs) <= token.balance_of(from),
        0 <= i <= legs.len(),
        0 <= k <= inbox.len(),
        env.inbox == inbox.skip(k),
    ensures
        ({
            let engine = token.compliance_engine;
            let run = play(legs_steps(token.balances, engine, from, legs, i), env);
            let told = notices(token.balances, engine, from, legs, i);
            &&& run.halt == messages_refusal(inbox, k, told.len())
            &&& run.halt is None ==> {
                &&& k + told.len() <= inbox.len()
                &&& run.env == EnvView {
                    inbox: inbox.skip(k + told.len()),
                    log: env.log + told,
                    ..env
                }
            }
        }),
    decreases legs.len() - i,
{
    let engine = token.compliance_engine;
    let told = notices(token.balances, engine, from, legs, i);
    if i < legs.len() {
        reveal_with_fuel(play, 2);
        let done = legs.take(i);
        let next = legs.take(i + 1);
        let leg = legs[i];
        assert(next.drop_last() =~= done);
        assert(next.last() == leg);
        lemma_totals(legs, i, from);
        lemma_totals(legs, i + 1, from);
        assert(all_positive(done));
        lemma_totals(done, i, from);
        lemma_pay(token.balances, from, done);
        let now = pay(token.balances, from, done);
        assert(balance_in(now, from) >= leg.amount);
        lemma_sum_bounds(now, leg.to, from);
        lemma_paid_iff_listed(done, leg.to);
        assert(balance_in(token.balances, leg.to) >= 0);
        assert(balance_in(now, leg.to) == balance_in(token.balances, leg.to) + paid_to(
            done,
            leg.to,
        ) - (if leg.to == from {
            total_of(done)
        } else {
            0
        }));
        let fresh = leg.to != from && balance_in(now, leg.to) == 0;
        assert(fresh == (leg.to != from && stored(token.balances, leg.to) == 0 && forall|j: int|
            0 <= j < i ==> (#[trigger] legs[j]).to != leg.to)) by {
            if paid_to(done, leg.to) > 0 {
                let j = choose|j: int| 0 <= j < done.len() && (#[trigger] done[j]).to == leg.to;
                assert(legs[j].to == leg.to);
            }
            if exists|j: int| 0 <= j < i && (#[trigger] legs[j]).to == leg.to {
                let j = choose|j: int| 0 <= j < i && (#[trigger] legs[j]).to == leg.to;
                assert(done[j].to == leg.to);
            }
        }
        let first = leg_steps(now, engine, from, leg);
        let run = play(first, env);
        if fresh {
            if run.halt is None {
                assert(run.env.inbox =~= inbox.skip(k + 1));
                lemma_payment(token, inbox, k + 1, from, legs, i + 1, run.env);
                let rest = notices(token.balances, engine, from, legs, i + 1);
                assert(run.env.log + rest =~= env.log + told);
                assert(messages_refusal(inbox, k + 1, rest.len()) == messages_refusal(
                    inbox,
                    k,
                    told.len(),
                ));
            } else if inbox.len() > k {
                assert(inbox[k] is Failed);
            }
        } else {
            lemma_payment(token, inbox, k, from, legs, i + 1, run.env);
            assert(told =~= notices(token.balances, engine, from, legs, i + 1));
        }
    } else {
        assert(env.log + told =~= env.log);
    }
}

/// The events of a transfer: one for each leg, in order.
pub open spec fn transfer_events(
    from: Address,
    legs: Seq<RecipientEntry>,
    timestamp: u64,
    i: int,
) -> Seq<Effect> {
    Seq::new(
        (legs.len() - i) as nat,
        |j: int|
            Effect::Event(
                Event::Transfer {
                    from,
                    to: legs[i + j].to,
                    amount: legs[i + j].amount,
                    timestamp,
                },
            ),
    )
}

proof fn lemma_events(
    from: Address,
    legs: Seq<RecipientEntry>,
    timestamp: u64,
    i: int,
    env: EnvView,
)
    requires
        0 <= i <= legs.len(),
    ensures
        play(events_steps(from, legs, timestamp, i), env).halt is None,
        play(events_steps(from, legs, timestamp, i), env).env == (EnvView {
            log: env.log + transfer_events(from, legs, timestamp, i),
            ..env
        }),
    decreases legs.len() - i,
{
    if i < legs.len() {
        reveal_with_fuel(play, 2);
        let event = Event::Transfer { from, to: legs[i].to, amount: legs[i].amount, timestamp };
        let next = env.publish(event);
        assert(seq![Step::Emit(event)].drop_first() =~= seq![]);
        lemma_events(from, legs, timestamp, i + 1, next);
        assert(next.log + transfer_events(from, legs, timestamp, i + 1) =~= env.log
            + transfer_events(from, legs, timestamp, i));
    } else {
        assert(env.log + transfer_events(from, legs, timestamp, i) =~= env.log);
    }
}

/// What the engine is told by a transfer: of the new holders, and then of a
/// sender whose whole balance went to others.
pub open spec fn messages(
    token: TokenView,
    from: Address,
    legs: Seq<RecipientEntry>,
) -> Seq<Effect> {
    let engine = token.compliance_engine;
    notices(token.balances, engine, from, legs, 0) + (if sum(legs) > 0 && stored(
        token.balances,
        from,
    ) == sum(legs) - share(legs, from) {
        seq![Effect::Call(Call::UnregisterHolder { engine, addr: from })]
    } else {
        seq![]
    })
}

proof fn lemma_execution(
    token: TokenView,
    inbox: Seq<Reply>,
    k: int,
    from: Address,
    legs: Seq<RecipientEntry>,
    timestamp: u64,
    env: EnvView,
)
    requires
        solvent(token),
        all_positive(legs),
        total_of(legs) <= token.balance_of(from),
        0 <= k <= inbox.len(),
        env.inbox == inbox.skip(k),
    ensures
        ({
            let engine = token.compliance_engine;
            let run = play(execute_steps(token.balances, engine, from, legs, timestamp), env);
            let told = messages(token, from, legs);
            &&& run.halt == messages_refusal(inbox, k, told.len())
            &&& run.halt is None ==> {
                &&& k + told.len() <= inbox.len()
                &&& run.env == EnvView {
                    inbox: inbox.skip(k + told.len()),
                    log: env.log + told + transfer_events(from, legs, timestamp, 0),
                    ..env
                }
            }
        }),
{
    reveal_with_fuel(play, 2);
    let engine = token.compliance_engine;
    let told = messages(token, from, legs);
    let first = notices(token.balances, engine, from, legs, 0);
    let paying = legs_steps(token.balances, engine, from, legs, 0);
    total_is_the_sum(legs);
    share_is_the_sum(legs, from);
    lemma_payment(token, inbox, k, from, legs, 0, env);
    let paid = play(paying, env);
    let drained = total_of(legs) > 0 && sender_after(token.balances, from, legs) == 0;
    let parting = if drained {
        seq![Step::Ask(Call::UnregisterHolder { engine, addr: from })]
    } else {
        seq![]
    };
    let events = events_steps(from, legs, timestamp, 0);
    assert(execute_steps(token.balances, engine, from, legs, timestamp) == paying + (parting
        + events));
    assert(told.len() == first.len() + parting.len());
    if paid.halt is Some {
        assert(messages_refusal(inbox, k, told.len()) == paid.halt);
    } else {
        let parted = play(parting, paid.env);
        let at = k + first.len();
        if drained {
            if inbox.len() > at {
                assert(paid.env.inbox[0] == inbox[at]);
            }
            if parted.halt is None {
                assert(parted.env.inbox =~= inbox.skip(at + 1));
                assert(parted.env.log =~= env.log + told);
            }
        } else {
            assert(told =~= first);
        }
        if parted.halt is None {
            lemma_events(from, legs, timestamp, 0, parted.env);
            assert(parted.env.log =~= env.log + told);
        }
        assert(parted.halt == messages_refusal(inbox, k, told.len()));
    }
}

impl Operation {
    /// Who spends, if it is not the owner, out of whose balance, and which legs
    /// are paid.
    pub open spec fn payment(self) -> Option<(Option<Address>, Address, Seq<RecipientEntry>)> {
        match self {
            Operation::Transfer { from, to, amount } => Some(
                (None, from, seq![RecipientEntry { to, amount }]),
            ),
            Operation::TransferFrom { spender, from, to, amount } => Some(
                (Some(spender), from, seq![RecipientEntry { to, amount }]),
            ),
            Operation::BatchTransfer { from, recipients } => Some((None, from, recipients@)),
            Operation::BatchTransferFrom { spender, from, recipients } => Some(
                (Some(spender), from, recipients@),
            ),
            _ => None,
        }
    }
}

/// Why a transfer is refused before its legs are looked at.
pub open spec fn sender_refusal(
    token: TokenView,
    inbox: Seq<Reply>,
    signer: Address,
    from: Address,
    legs: Seq<RecipientEntry>,
) -> Option<Halt> {
    first_of(
        first_of(
            unless(!token.transfer_lock, Halt::Trap(Trap::TransferReentrant)),
            verdict(Call::RequireAuth { addr: signer }, inbox, 0),
        ),
        first_of(
            if legs.len() == 0 {
                Some(Halt::Error(RwaError::EmptyBatch))
            } else {
                unless(legs.len() <= 10, Halt::Error(RwaError::BatchTooLarge))
            },
            first_of(
                unless(!barred(token, from), Halt::Error(RwaError::AccountFrozen)),
                verdict(Call::IsApproved { registry: token.kyc_registry, addr: from }, inbox, 1),
            ),
        ),
    )
}

proof fn lemma_sender(
    token: TokenView,
    env: EnvView,
    signer: Address,
    from: Address,
    legs: Seq<RecipientEntry>,
)
    ensures
        ({
            let opening = seq![
                Step::Check(!token.transfer_lock, Halt::Trap(Trap::TransferReentrant)),
                Step::Ask(Call::RequireAuth { addr: signer }),
            ];
            let limits = seq![
                Step::Check(legs.len() > 0, Halt::Error(RwaError::EmptyBatch)),
                Step::Check(
                    legs.len() <= crate::transfer::MAX_BATCH,
                    Halt::Error(RwaError::BatchTooLarge),
                ),
            ];
            let run = play(opening + (limits + sender_steps(token, from)), env);
            &&& run.halt == sender_refusal(token, env.inbox, signer, from, legs)
            &&& run.halt is None ==> {
                &&& 2 <= env.inbox.len()
                &&& run.env == EnvView {
                    inbox: env.inbox.skip(2),
                    log: env.log + seq![
                        Effect::Call(Call::RequireAuth { addr: signer }),
                        Effect::Call(
                            Call::IsApproved { registry: token.kyc_registry, addr: from },
                        ),
                    ],
                    ..env
                }
            }
        }),
{
    reveal_with_fuel(play, 3);
    let opening = seq![
        Step::Check(!token.transfer_lock, Halt::Trap(Trap::TransferReentrant)),
        Step::Ask(Call::RequireAuth { addr: signer }),
    ];
    let limits = seq![
        Step::Check(legs.len() > 0, Halt::Error(RwaError::EmptyBatch)),
        Step::Check(
            legs.len() <= crate::transfer::MAX_BATCH,
            Halt::Error(RwaError::BatchTooLarge),
        ),
    ];
    let run = play(opening + (limits + sender_steps(token, from)), env);
    if run.halt is None {
        assert(run.env.inbox =~= env.inbox.skip(2));
    }
}

/// Legs that are not refused are positive.
proof fn lemma_legs_positive(
    token: TokenView,
    inbox: Seq<Reply>,
    k: int,
    from: Address,
    legs: Seq<RecipientEntry>,
    i: int,
)
    requires
        0 <= i <= legs.len(),
        legs_refusal(token, inbox, k, from, legs, i) is None,
    ensures
        forall|j: int| i <= j < legs.len() ==> (#[trigger] legs[j]).amount > 0,
    decreases legs.len() - i,
{
    if i < legs.len() {
        lemma_legs_positive(token, inbox, k + 2, from, legs, i + 1);
    }
}

/// The check of a spender's allowance.
spec fn allowance_steps(
    token: TokenView,
    sequence: u32,
    spender: Option<Address>,
    from: Address,
    legs: Seq<RecipientEntry>,
) -> Seq<Step> {
    match spender {
        Some(spender) => seq![
            Step::Check(
                token.allowance_of(from, spender, sequence).amount >= total_of(legs),
                Halt::Error(RwaError::InsufficientAllowance),
            ),
        ],
        None => seq![],
    }
}

/// The steps of a transfer before it is executed.
spec fn validation_steps(
    token: TokenView,
    env: EnvView,
    spender: Option<Address>,
    from: Address,
    legs: Seq<RecipientEntry>,
) -> Seq<Step> {
    seq![
        Step::Check(!token.transfer_lock, Halt::Trap(Trap::TransferReentrant)),
        Step::Ask(
            Call::RequireAuth {
                addr: match spender {
                    Some(spender) => spender,
                    None => from,
                },
            },
        ),
    ] + plan_steps(token, from, legs) + allowance_steps(token, env.sequence, spender, from, legs)
}

/// What is checked of a transfer as a whole.
proof fn lemma_whole(
    token: TokenView,
    inbox: Seq<Reply>,
    k: int,
    sequence: u32,
    spender: Option<Address>,
    from: Address,
    legs: Seq<RecipientEntry>,
    env: EnvView,
)
    requires
        0 <= k <= inbox.len(),
        env.inbox == inbox.skip(k),
    ensures
        ({
            let engine = token.compliance_engine;
            let held = stored(token.balances, from);
            let arriving = arrivals(token.balances, from, legs).len();
            let leaving = held > 0 && held == sum(legs) - share(legs, from);
            let asked = cap_questions(engine, inbox, k, arriving);
            let run = play(
                totals_steps(token, from, legs) + allowance_steps(
                    token,
                    sequence,
                    spender,
                    from,
                    legs,
                ),
                env,
            );
            &&& run.halt == first_of(
                first_of(
                    unless(held >= sum(legs), Halt::Error(RwaError::InsufficientBalance)),
                    cap_refusal(engine, inbox, k, arriving, leaving),
                ),
                unless(
                    spender is None || usable(token.allowances, from, spender->0, sequence) >= sum(
                        legs,
                    ),
                    Halt::Error(RwaError::InsufficientAllowance),
                ),
            )
            &&& run.halt is None ==> {
                &&& k + asked.len() <= inbox.len()
                &&& run.env == EnvView {
                    log: env.log + asked,
                    inbox: inbox.skip(k + asked.len()),
                    ..env
                }
            }
        }),
{
    total_is_the_sum(legs);
    share_is_the_sum(legs, from);
    lemma_arrivals(token.balances, from, legs);
    let engine = token.compliance_engine;
    let arriving = newcomers(token.balances, from, legs).len();
    let leaving = token.balance_of(from) > 0 && sender_after(token.balances, from, legs) == 0;
    cap_decides(env, inbox, k, engine, arriving, leaving);
    reveal_with_fuel(play, 3);
    let totals = totals_steps(token, from, legs);
    assert(totals.drop_first() =~= seq![totals[1]]);
}

proof fn lemma_validation(
    token: TokenView,
    env: EnvView,
    spender: Option<Address>,
    from: Address,
    legs: Seq<RecipientEntry>,
)
    ensures
        ({
            let signer = match spender {
                Some(spender) => spender,
                None => from,
            };
            let run = play(validation_steps(token, env, spender, from, legs), env);
            let engine = token.compliance_engine;
            let held = stored(token.balances, from);
            let arriving = arrivals(token.balances, from, legs).len();
            let leaving = held > 0 && held == sum(legs) - share(legs, from);
            let k = 2 + 2 * legs.len() as int;
            let asked = cap_questions(engine, env.inbox, k, arriving);
            &&& run.halt == first_of(
                first_of(
                    sender_refusal(token, env.inbox, signer, from, legs),
                    legs_refusal(token, env.inbox, 2, from, legs, 0),
                ),
                first_of(
                    first_of(
                        unless(held >= sum(legs), Halt::Error(RwaError::InsufficientBalance)),
                        cap_refusal(engine, env.inbox, k, arriving, leaving),
                    ),
                    unless(
                        spender is None || usable(
                            token.allowances,
                            from,
                            spender->0,
                            env.sequence,
                        ) >= sum(legs),
                        Halt::Error(RwaError::InsufficientAllowance),
                    ),
                ),
            )
            &&& run.halt is None ==> {
                &&& all_positive(legs)
                &&& legs.len() > 0
                &&& sum(legs) > 0
                &&& k + asked.len() <= env.inbox.len()
                &&& run.env == EnvView {
                    log: env.log + (seq![
                        Effect::Call(Call::RequireAuth { addr: signer }),
                        Effect::Call(
                            Call::IsApproved { registry: token.kyc_registry, addr: from },
                        ),
                    ] + questions(token, from, legs, 0) + asked),
                    inbox: env.inbox.skip(k + asked.len()),
                    ..env
                }
            }
        }),
{
    let signer = match spender {
        Some(spender) => spender,
        None => from,
    };
    let inbox = env.inbox;
    let engine = token.compliance_engine;
    let opening = seq![
        Step::Check(!token.transfer_lock, Halt::Trap(Trap::TransferReentrant)),
        Step::Ask(Call::RequireAuth { addr: signer }),
    ];
    let limits = seq![
        Step::Check(legs.len() > 0, Halt::Error(RwaError::EmptyBatch)),
        Step::Check(
            legs.len() <= crate::transfer::MAX_BATCH,
            Halt::Error(RwaError::BatchTooLarge),
        ),
    ];
    let door = opening + (limits + sender_steps(token, from));
    let middle = recipients_steps(token, from, legs, 0);
    let totals = totals_steps(token, from, legs);
    let last = allowance_steps(token, env.sequence, spender, from, legs);
    let all = validation_steps(token, env, spender, from, legs);
    assert(all =~= door + (middle + (totals + last)));
    lemma_sender(token, env, signer, from, legs);
    total_is_the_sum(legs);
    share_is_the_sum(legs, from);
    lemma_arrivals(token.balances, from, legs);
    let entered = play(door, env);
    if entered.halt is None {
        lemma_legs(token, inbox, 2, from, legs, 0, entered.env);
        let asked_all = play(middle, entered.env);
        if asked_all.halt is None {
            lemma_legs_positive(token, inbox, 2, from, legs, 0);
            assert(all_positive(legs));
            let rest = legs.drop_last();
            assert(all_positive(rest)) by {
                assert forall|j: int| 0 <= j < rest.len() implies (#[trigger] rest[j]).amount
                    > 0 by {
                    assert(rest[j] == legs[j]);
                }
            }
            lemma_totals(rest, rest.len() as int, from);
            assert(legs.last() == legs[legs.len() - 1]);
            lemma_totals(legs, legs.len() as int, from);
            let k = 2 + 2 * legs.len() as int;
            lemma_whole(token, inbox, k, env.sequence, spender, from, legs, asked_all.env);
            let asked = cap_questions(
                engine,
                inbox,
                k,
                arrivals(token.balances, from, legs).len(),
            );
            assert(asked_all.env.log + asked =~= env.log + (seq![
                Effect::Call(Call::RequireAuth { addr: signer }),
                Effect::Call(Call::IsApproved { registry: token.kyc_registry, addr: from }),
            ] + questions(token, from, legs, 0) + asked));
        }
    }
}

/// A transfer is refused for the first reason that applies: a transfer is under
/// way, it is not authorized, it has no legs or more than ten, its sender is
/// frozen or not approved, a leg is refused, the sender holds less than all
/// legs together, the holder cap leaves no room, the spender may spend less
/// than all legs together, or a message to the engine fails. Where none
/// applies, it goes through.
///
/// It asks about the sender, each leg and the holder cap, tells the engine of
/// the new holders and of a drained sender, and publishes one event for each
/// leg. Each account gets the legs to it, and the sender pays all legs. The
/// spender's allowance is used for all legs, keeps its expiration ledger, and
/// is removed once it is used up. Nothing else changes.
#[verifier::rlimit(60)]
pub proof fn transfer_exactly(operation: Operation, token: TokenView, env: EnvView)
    requires
        solvent(token),
        operation.payment() is Some,
    ensures
        ({
            let (spender, from, legs) = operation.payment()->0;
            let signer = match spender {
                Some(spender) => spender,
                None => from,
            };
            let run = play(operation.steps(token, env), env);
            let after = operation.outcome(token, env);
            let engine = token.compliance_engine;
            let held = stored(token.balances, from);
            let arriving = arrivals(token.balances, from, legs).len();
            let leaving = held > 0 && held == sum(legs) - share(legs, from);
            let k = 2 + 2 * legs.len() as int;
            let asked = cap_questions(engine, env.inbox, k, arriving);
            let told = messages(token, from, legs);
            &&& run.halt == first_of(
                first_of(
                    sender_refusal(token, env.inbox, signer, from, legs),
                    legs_refusal(token, env.inbox, 2, from, legs, 0),
                ),
                first_of(
                    first_of(
                        unless(held >= sum(legs), Halt::Error(RwaError::InsufficientBalance)),
                        cap_refusal(engine, env.inbox, k, arriving, leaving),
                    ),
                    first_of(
                        unless(
                            spender is None || usable(
                                token.allowances,
                                from,
                                spender->0,
                                env.sequence,
                            ) >= sum(legs),
                            Halt::Error(RwaError::InsufficientAllowance),
                        ),
                        messages_refusal(env.inbox, k + asked.len(), told.len()),
                    ),
                ),
            )
            &&& run.halt is None ==> {
                &&& run.env == EnvView {
                    log: env.log + (seq![
                        Effect::Call(Call::RequireAuth { addr: signer }),
                        Effect::Call(
                            Call::IsApproved { registry: token.kyc_registry, addr: from },
                        ),
                    ] + questions(token, from, legs, 0) + asked + told + transfer_events(
                        from,
                        legs,
                        env.timestamp,
                        0,
                    )),
                    inbox: env.inbox.skip(k + asked.len() + told.len()),
                    ..env
                }
                &&& forall|addr: Address|
                    #[trigger] stored(after.balances, addr) == stored(token.balances, addr)
                        + share(legs, addr) - (if addr == from {
                        sum(legs)
                    } else {
                        0
                    })
                &&& after == TokenView {
                    balances: after.balances,
                    allowances: if spender is None {
                        token.allowances
                    } else if token.allowances[(from, spender->0)].amount == sum(legs) {
                        token.allowances.remove((from, spender->0))
                    } else {
                        token.allowances.insert(
                            (from, spender->0),
                            AllowanceValue {
                                amount: (token.allowances[(from, spender->0)].amount - sum(
                                    legs,
                                )) as i128,
                                expiration_ledger: token.allowances[(
                                    from,
                                    spender->0,
                                )].expiration_ledger,
                            },
                        )
                    },
                    ..token
                }
            }
        }),
{
    let (spender, from, legs) = operation.payment()->0;
    let signer = match spender {
        Some(spender) => spender,
        None => from,
    };
    assert(operation.steps(token, env) == transfer_steps(token, env, spender, from, legs));
    assert(operation.outcome(token, env) == transferred(token, env, spender, from, legs));
    lemma_validation(token, env, spender, from, legs);
    let engine = token.compliance_engine;
    let inbox = env.inbox;
    let arriving = arrivals(token.balances, from, legs).len();
    let asked = cap_questions(engine, inbox, 2 + 2 * legs.len() as int, arriving);
    let k: int = 2 + 2 * legs.len() as int + asked.len();
    let lead = validation_steps(token, env, spender, from, legs);
    let tail = execute_steps(token.balances, engine, from, legs, env.timestamp);
    assert(transfer_steps(token, env, spender, from, legs) == lead + tail);
    let vetted = play(lead, env);
    total_is_the_sum(legs);
    if vetted.halt is None {
        lemma_execution(token, inbox, k, from, legs, env.timestamp, vetted.env);
        let run = play(operation.steps(token, env), env);
        if run.halt is None {
            assert(run.env.log =~= env.log + (seq![
                Effect::Call(Call::RequireAuth { addr: signer }),
                Effect::Call(Call::IsApproved { registry: token.kyc_registry, addr: from }),
            ] + questions(token, from, legs, 0) + asked + messages(token, from, legs)
                + transfer_events(from, legs, env.timestamp, 0)));
            transfer_moves_exactly(token, env, spender, from, legs);
            let after = operation.outcome(token, env);
            assert forall|addr: Address| #[trigger]
                stored(after.balances, addr) == stored(token.balances, addr) + share(legs, addr) - (
                if addr == from {
                    sum(legs)
                } else {
                    0
                }) by {
                share_is_the_sum(legs, addr);
                assert(after.balance_of(addr) == stored(after.balances, addr));
            }
        }
    }
}

/// Whether the recipient of the `i`-th leg is approved and the engine allows
/// the leg.
pub open spec fn leg_agreed(inbox: Seq<Reply>, i: int) -> bool {
    &&& inbox[2 + 2 * i] == Reply::Flag(true)
    &&& inbox[3 + 2 * i] == Reply::Decision(TransferDecision::Allow)
}

proof fn lemma_legs_agreed(
    token: TokenView,
    inbox: Seq<Reply>,
    from: Address,
    legs: Seq<RecipientEntry>,
    i: int,
)
    requires
        0 <= i <= legs.len(),
        sum(legs) <= i128::MAX,
        inbox.len() >= 2 + 2 * legs.len(),
        forall|j: int|
            0 <= j < legs.len() ==> (#[trigger] legs[j]).amount > 0 && !barred(token, legs[j].to),
        forall|j: int| 0 <= j < legs.len() ==> #[trigger] leg_agreed(inbox, j),
    ensures
        legs_refusal(token, inbox, 2 + 2 * i, from, legs, i) is None,
    decreases legs.len() - i,
{
    if i < legs.len() {
        let leg = legs[i];
        assert(leg_agreed(inbox, i));
        total_is_the_sum(legs);
        total_is_the_sum(legs.take(i + 1));
        assert(all_positive(legs));
        lemma_totals(legs, i + 1, from);
        lemma_legs_agreed(token, inbox, from, legs, i + 1);
    }
}

/// A transfer goes through if none is under way, it has one to ten positive
/// legs, no party is frozen, the sender holds all legs together, the spender
/// of a delegated one may spend as much, and everything that is asked is
/// answered in favour: the authorization, the approvals of all parties, the
/// engine's decision on each leg, the holder cap, and the messages to the
/// engine. Nothing more is needed: the whole balance and the whole allowance
/// can be spent.
pub proof fn covered_transfers_go_through(operation: Operation, token: TokenView, env: EnvView)
    requires
        solvent(token),
        operation.payment() is Some,
        !token.transfer_lock,
        ({
            let (spender, from, legs) = operation.payment()->0;
            let engine = token.compliance_engine;
            let held = stored(token.balances, from);
            let arriving = arrivals(token.balances, from, legs).len();
            let leaving = held > 0 && held == sum(legs) - share(legs, from);
            let k = 2 + 2 * legs.len() as int;
            let asked = cap_questions(engine, env.inbox, k, arriving);
            let told = messages(token, from, legs);
            &&& 1 <= legs.len() <= 10
            &&& !barred(token, from)
            &&& forall|i: int|
                0 <= i < legs.len() ==> (#[trigger] legs[i]).amount > 0 && !barred(
                    token,
                    legs[i].to,
                )
            &&& sum(legs) <= held
            &&& spender matches Some(spender) ==> sum(legs) <= usable(
                token.allowances,
                from,
                spender,
                env.sequence,
            )
            &&& env.inbox.len() >= k + asked.len() + told.len()
            &&& env.inbox[0] == Reply::Done
            &&& env.inbox[1] == Reply::Flag(true)
            &&& forall|i: int| 0 <= i < legs.len() ==> #[trigger] leg_agreed(env.inbox, i)
            &&& cap_refusal(engine, env.inbox, k, arriving, leaving) is None
            &&& forall|j: int|
                k + asked.len() <= j < k + asked.len() + told.len() ==> !(
                #[trigger] env.inbox[j] is Failed)
        }),
    ensures
        play(operation.steps(token, env), env).halt is None,
{
    let (spender, from, legs) = operation.payment()->0;
    transfer_exactly(operation, token, env);
    lemma_legs_agreed(token, env.inbox, from, legs, 0);
}

proof fn lemma_legs_refusal_kinds(
    token: TokenView,
    inbox: Seq<Reply>,
    k: int,
    from: Address,
    legs: Seq<RecipientEntry>,
    i: int,
)
    requires
        0 <= i,
    ensures
        legs_refusal(token, inbox, k, from, legs, i) matches Some(halt) ==> {
            ||| halt == Halt::Pending
            ||| halt == Halt::Error(RwaError::KycNotApproved)
            ||| halt == Halt::Error(RwaError::KycRegistryUnavailable)
            ||| halt == Halt::Error(RwaError::TransferBlocked)
            ||| halt == Halt::Error(RwaError::ComplianceEngineUnavailable)
            ||| halt == Halt::Error(RwaError::NegativeAmount) && exists|j: int|
                0 <= j < legs.len() && (#[trigger] legs[j]).amount <= 0
            ||| halt == Halt::Error(RwaError::AccountFrozen) && exists|j: int|
                0 <= j < legs.len() && barred(token, (#[trigger] legs[j]).to)
            ||| halt == Halt::Error(RwaError::BatchAmountOverflow) && exists|j: int|
                0 <= j < legs.len() && sum(#[trigger] legs.take(j + 1)) > i128::MAX
        },
    decreases legs.len() - i,
{
    if i < legs.len() {
        let leg = legs[i];
        let so_far = legs.take(i + 1);
        lemma_legs_refusal_kinds(token, inbox, k + 2, from, legs, i + 1);
    }
}

/// Each refusal of a transfer has its cause. In particular the allowance is
/// named only where it is smaller than all legs together, and the balance only
/// where it is.
pub proof fn transfer_refusals_have_their_cause(
    operation: Operation,
    token: TokenView,
    env: EnvView,
)
    requires
        solvent(token),
        operation.payment() is Some,
    ensures
        ({
            let (spender, from, legs) = operation.payment()->0;
            play(operation.steps(token, env), env).halt matches Some(halt) ==> match halt {
                Halt::Pending => true,
                Halt::Trap(Trap::TransferReentrant) => token.transfer_lock,
                Halt::Trap(Trap::Unauthorized) => env.inbox[0] != Reply::Done,
                Halt::Error(RwaError::EmptyBatch) => legs.len() == 0,
                Halt::Error(RwaError::BatchTooLarge) => legs.len() > 10,
                Halt::Error(RwaError::AccountFrozen) => barred(token, from) || exists|j: int|
                    0 <= j < legs.len() && barred(token, (#[trigger] legs[j]).to),
                Halt::Error(RwaError::NegativeAmount) => exists|j: int|
                    0 <= j < legs.len() && (#[trigger] legs[j]).amount <= 0,
                Halt::Error(RwaError::BatchAmountOverflow) => exists|j: int|
                    0 <= j < legs.len() && sum(#[trigger] legs.take(j + 1)) > i128::MAX,
                Halt::Error(RwaError::InsufficientBalance) => stored(token.balances, from) < sum(
                    legs,
                ),
                Halt::Error(RwaError::InsufficientAllowance) => spender is Some && usable(
                    token.allowances,
                    from,
                    spender->0,
                    env.sequence,
                ) < sum(legs),
                Halt::Error(RwaError::HolderLimitExceeded) => arrivals(
                    token.balances,
                    from,
                    legs,
                ).len() > 0,
                Halt::Error(RwaError::KycNotApproved) => true,
                Halt::Error(RwaError::KycRegistryUnavailable) => true,
                Halt::Error(RwaError::TransferBlocked) => true,
                Halt::Error(RwaError::ComplianceEngineUnavailable) => true,
                _ => false,
            }
        }),
{
    let (spender, from, legs) = operation.payment()->0;
    transfer_exactly(operation, token, env);
    lemma_legs_refusal_kinds(token, env.inbox, 2, from, legs, 0);
}

} // verus!
