//! Transfers: single and batch, direct and delegated.
//!
//! Every entry point goes the same way: lock, authorization, validation of
//! the whole transfer, balance changes and holder registrations, events,
//! unlock. Nothing is changed unless all of it succeeds.

use vstd::prelude::*;

use crate::allowance::{spend_allowance, spend_in};
use crate::balance::{balance_in, credit, read_balance, receive_balance, spend_balance};
use crate::compliance::{
    check_transfer, ensure_holder_capacity, is_frozen, register_holder, unregister_holder,
};
use crate::events::{emit_transfer, Event};
use crate::host::{lemma_play_frame, play, returns_run, Call, Env, EnvView, Step};
use crate::kyc::require_kyc;
use crate::table::Table;
use crate::token::{settles, RwaToken, TokenView};
use crate::types::{contains_address, Address, Halt, RecipientEntry, RwaError, Trap};

verus! {

broadcast use crate::host::group_play;

/// The largest number of legs in one batch.
pub const MAX_BATCH: usize = 10;

/// The sum of all legs.
pub open spec fn total_of(recipients: Seq<RecipientEntry>) -> int
    decreases recipients.len(),
{
    if recipients.len() == 0 {
        0
    } else {
        total_of(recipients.drop_last()) + recipients.last().amount
    }
}

/// The sum of the legs to `addr`.
pub open spec fn paid_to(recipients: Seq<RecipientEntry>, addr: Address) -> int
    decreases recipients.len(),
{
    if recipients.len() == 0 {
        0
    } else if recipients.last().to == addr {
        paid_to(recipients.drop_last(), addr) + recipients.last().amount
    } else {
        paid_to(recipients.drop_last(), addr)
    }
}

/// Whether every leg moves a positive amount.
pub open spec fn all_positive(recipients: Seq<RecipientEntry>) -> bool {
    forall|i: int| 0 <= i < recipients.len() ==> (#[trigger] recipients[i]).amount > 0
}

/// The recipients, other than the sender, that hold nothing yet.
pub open spec fn newcomers(
    balances: Map<Address, i128>,
    from: Address,
    recipients: Seq<RecipientEntry>,
) -> Set<Address> {
    recipients.map_values(|r: RecipientEntry| r.to).to_set().filter(
        |a: Address| a != from && balance_in(balances, a) == 0,
    )
}

/// The sender's balance once all legs are paid. Legs to the sender cost
/// nothing.
pub open spec fn sender_after(
    balances: Map<Address, i128>,
    from: Address,
    recipients: Seq<RecipientEntry>,
) -> int {
    balance_in(balances, from) - (total_of(recipients) - paid_to(recipients, from))
}

/// Stops unless `from` may send.
pub open spec fn sender_steps(token: TokenView, from: Address) -> Seq<Step> {
    seq![
        Step::Check(!token.frozen_at(from), Halt::Error(RwaError::AccountFrozen)),
        Step::Ask(Call::IsApproved { registry: token.kyc_registry, addr: from }),
    ]
}

/// Stops unless `to` may receive `amount` from `from`.
pub open spec fn recipient_steps(
    token: TokenView,
    from: Address,
    to: Address,
    amount: i128,
) -> Seq<Step> {
    seq![
        Step::Check(amount > 0, Halt::Error(RwaError::NegativeAmount)),
        Step::Check(!token.frozen_at(to), Halt::Error(RwaError::AccountFrozen)),
        Step::Ask(Call::IsApproved { registry: token.kyc_registry, addr: to }),
        Step::Ask(
            Call::EvaluateTransfer { engine: token.compliance_engine, from, to, amount },
        ),
    ]
}

/// The validation of the legs from the `i`-th on.
pub open spec fn recipients_steps(
    token: TokenView,
    from: Address,
    recipients: Seq<RecipientEntry>,
    i: int,
) -> Seq<Step>
    decreases recipients.len() - i,
{
    if i >= recipients.len() {
        seq![]
    } else {
        recipient_steps(token, from, recipients[i].to, recipients[i].amount).push(
            Step::Check(
                total_of(recipients.take(i + 1)) <= i128::MAX,
                Halt::Error(RwaError::BatchAmountOverflow),
            ),
        ) + recipients_steps(token, from, recipients, i + 1)
    }
}

/// What is checked of a transfer as a whole once its legs are validated.
pub open spec fn totals_steps(
    token: TokenView,
    from: Address,
    recipients: Seq<RecipientEntry>,
) -> Seq<Step> {
    seq![
        Step::Check(
            token.balance_of(from) >= total_of(recipients),
            Halt::Error(RwaError::InsufficientBalance),
        ),
        Step::Capacity {
            engine: token.compliance_engine,
            newcomers: newcomers(token.balances, from, recipients).len(),
            sender_leaves: token.balance_of(from) > 0 && sender_after(
                token.balances,
                from,
                recipients,
            ) == 0,
        },
    ]
}

/// The validation of a whole transfer.
pub open spec fn plan_steps(
    token: TokenView,
    from: Address,
    recipients: Seq<RecipientEntry>,
) -> Seq<Step> {
    seq![
        Step::Check(recipients.len() > 0, Halt::Error(RwaError::EmptyBatch)),
        Step::Check(recipients.len() <= MAX_BATCH, Halt::Error(RwaError::BatchTooLarge)),
    ] + sender_steps(token, from) + (recipients_steps(token, from, recipients, 0) + totals_steps(
        token,
        from,
        recipients,
    ))
}

/// The balances after one leg.
pub open spec fn move_leg(
    balances: Map<Address, i128>,
    from: Address,
    leg: RecipientEntry,
) -> Map<Address, i128> {
    credit(credit(balances, from, -leg.amount), leg.to, leg.amount as int)
}

/// The balances after all legs.
pub open spec fn pay(
    balances: Map<Address, i128>,
    from: Address,
    recipients: Seq<RecipientEntry>,
) -> Map<Address, i128>
    decreases recipients.len(),
{
    if recipients.len() == 0 {
        balances
    } else {
        move_leg(pay(balances, from, recipients.drop_last()), from, recipients.last())
    }
}

/// One leg: the recipient's balance must have room, and a recipient that held
/// nothing becomes a holder.
pub open spec fn leg_steps(
    balances: Map<Address, i128>,
    engine: Address,
    from: Address,
    leg: RecipientEntry,
) -> Seq<Step> {
    seq![
        Step::Check(
            leg.to == from || balance_in(balances, leg.to) + leg.amount <= i128::MAX,
            Halt::Trap(Trap::ArithmeticOverflow),
        ),
    ] + (if leg.to != from && balance_in(balances, leg.to) == 0 {
        seq![Step::Ask(Call::RegisterHolder { engine, addr: leg.to })]
    } else {
        seq![]
    })
}

/// The legs from the `i`-th on.
pub open spec fn legs_steps(
    balances: Map<Address, i128>,
    engine: Address,
    from: Address,
    recipients: Seq<RecipientEntry>,
    i: int,
) -> Seq<Step>
    decreases recipients.len() - i,
{
    if i >= recipients.len() {
        seq![]
    } else {
        leg_steps(pay(balances, from, recipients.take(i)), engine, from, recipients[i])
            + legs_steps(balances, engine, from, recipients, i + 1)
    }
}

/// The events of the legs from the `i`-th on.
pub open spec fn events_steps(
    from: Address,
    recipients: Seq<RecipientEntry>,
    timestamp: u64,
    i: int,
) -> Seq<Step>
    decreases recipients.len() - i,
{
    if i >= recipients.len() {
        seq![]
    } else {
        seq![
            Step::Emit(
                Event::Transfer {
                    from,
                    to: recipients[i].to,
                    amount: recipients[i].amount,
                    timestamp,
                },
            ),
        ] + events_steps(from, recipients, timestamp, i + 1)
    }
}

/// The execution of a validated transfer. A drained sender is no holder any
/// more.
pub open spec fn execute_steps(
    balances: Map<Address, i128>,
    engine: Address,
    from: Address,
    recipients: Seq<RecipientEntry>,
    timestamp: u64,
) -> Seq<Step> {
    legs_steps(balances, engine, from, recipients, 0) + ((if total_of(recipients) > 0
        && sender_after(balances, from, recipients) == 0 {
        seq![Step::Ask(Call::UnregisterHolder { engine, addr: from })]
    } else {
        seq![]
    }) + events_steps(from, recipients, timestamp, 0))
}

/// A whole transfer out of `from`, on behalf of `spender` if there is one.
pub open spec fn transfer_steps(
    token: TokenView,
    env: EnvView,
    spender: Option<Address>,
    from: Address,
    recipients: Seq<RecipientEntry>,
) -> Seq<Step> {
    seq![
        Step::Check(!token.transfer_lock, Halt::Trap(Trap::TransferReentrant)),
        Step::Ask(
            Call::RequireAuth {
                addr: match spender {
                    Some(spender) => spender,
                    None => from,
                },
            },
        ),
    ] + plan_steps(token, from, recipients) + (match spender {
        Some(spender) => seq![
            Step::Check(
                token.allowance_of(from, spender, env.sequence).amount >= total_of(recipients),
                Halt::Error(RwaError::InsufficientAllowance),
            ),
        ],
        None => seq![],
    }) + execute_steps(token.balances, token.compliance_engine, from, recipients, env.timestamp)
}

/// The token after a transfer.
pub open spec fn transferred(
    token: TokenView,
    env: EnvView,
    spender: Option<Address>,
    from: Address,
    recipients: Seq<RecipientEntry>,
) -> TokenView {
    TokenView {
        balances: pay(token.balances, from, recipients),
        allowances: match spender {
            Some(spender) => spend_in(
                token.allowances,
                from,
                spender,
                env.sequence,
                total_of(recipients),
            ),
            None => token.allowances,
        },
        transfer_lock: false,
        ..token
    }
}

/// Positive legs add up to at least what any run of first legs adds up to,
/// and to at least what any one address gets.
pub proof fn lemma_totals(recipients: Seq<RecipientEntry>, i: int, addr: Address)
    requires
        all_positive(recipients),
        0 <= i <= recipients.len(),
    ensures
        0 <= total_of(recipients.take(i)) <= total_of(recipients),
        0 <= paid_to(recipients, addr) <= total_of(recipients),
    decreases recipients.len(),
{
    if recipients.len() == 0 {
        assert(recipients.take(i) =~= recipients);
    } else {
        let rest = recipients.drop_last();
        assert(recipients.last() == recipients[recipients.len() - 1]);
        assert(all_positive(rest)) by {
            assert forall|j: int| 0 <= j < rest.len() implies (#[trigger] rest[j]).amount > 0 by {
                assert(rest[j] == recipients[j]);
            }
        }
        if i == recipients.len() {
            assert(recipients.take(i) =~= recipients);
            lemma_totals(rest, i - 1, addr);
            assert(rest.take(i - 1) =~= rest);
        } else {
            assert(recipients.take(i) =~= rest.take(i));
            lemma_totals(rest, i, addr);
        }
    }
}

/// The validation of a transfer does not look at the transfer lock.
proof fn lemma_lock_unseen(
    token: TokenView,
    lock: bool,
    from: Address,
    recipients: Seq<RecipientEntry>,
    i: int,
)
    ensures
        recipients_steps(TokenView { transfer_lock: lock, ..token }, from, recipients, i)
            == recipients_steps(token, from, recipients, i),
    decreases recipients.len() - i,
{
    if i < recipients.len() {
        lemma_lock_unseen(token, lock, from, recipients, i + 1);
    }
}

/// A transfer that has been validated as a whole.
pub struct TransferPlan {
    pub total_amount: i128,
    pub sender_balance_after: i128,
}

/// The token once a transfer has been let in: none is let in while the lock is
/// set.
pub open spec fn entered(token: TokenView) -> Result<TokenView, Halt> {
    if token.transfer_lock {
        Err(Halt::Trap(Trap::TransferReentrant))
    } else {
        Ok(TokenView { transfer_lock: true, ..token })
    }
}

/// The token once a transfer has left.
pub open spec fn left(token: TokenView) -> TokenView {
    TokenView { transfer_lock: false, ..token }
}

impl RwaToken {
    /// Sets the transfer lock. Stops if it is set already.
    pub fn enter_transfer_guard(&mut self) -> (result: Result<(), Halt>)
        ensures
            match entered(old(self)@) {
                Ok(inside) => result is Ok && final(self)@ == inside,
                Err(halt) => result == Err::<(), Halt>(halt) && final(self)@ == old(self)@,
            },
    {
        if self.transfer_lock {
            return Err(Halt::Trap(Trap::TransferReentrant));
        }
        self.transfer_lock = true;
        Ok(())
    }

    /// Clears the transfer lock.
    pub fn exit_transfer_guard(&mut self)
        ensures
            final(self)@ == left(old(self)@),
    {
        self.transfer_lock = false;
    }

    /// Stops unless `from` may send.
    fn validate_sender(&self, env: &mut Env, from: Address) -> (result: Result<(), Halt>)
        ensures
            returns_run(final(env)@, result, play(sender_steps(self@, from), old(env)@)),
    {
        reveal_with_fuel(play, 3);
        if is_frozen(self, from) {
            return Err(Halt::Error(RwaError::AccountFrozen));
        }
        require_kyc(self, env, from)
    }

    /// Stops unless `to` may receive `amount` from `from`.
    fn validate_recipient(
        &self,
        env: &mut Env,
        from: Address,
        to: Address,
        amount: i128,
    ) -> (result: Result<(), Halt>)
        ensures
            returns_run(
                final(env)@,
                result,
                play(recipient_steps(self@, from, to, amount), old(env)@),
            ),
            result is Ok ==> amount > 0,
    {
        reveal_with_fuel(play, 5);
        if amount <= 0 {
            return Err(Halt::Error(RwaError::NegativeAmount));
        }
        if is_frozen(self, to) {
            return Err(Halt::Error(RwaError::AccountFrozen));
        }
        require_kyc(self, env, to)?;
        check_transfer(self, env, from, to, amount)
    }

    /// Validates a whole transfer without changing anything.
    fn prepare_transfer_plan(
        &self,
        env: &mut Env,
        from: Address,
        recipients: &Vec<RecipientEntry>,
    ) -> (plan: Result<TransferPlan, Halt>)
        ensures
            returns_run(
                final(env)@,
                plan,
                play(plan_steps(self@, from, recipients@), old(env)@),
            ),
            plan matches Ok(plan) ==> {
                &&& plan.total_amount == total_of(recipients@)
                &&& plan.sender_balance_after == sender_after(self@.balances, from, recipients@)
                &&& recipients@.len() > 0
                &&& all_positive(recipients@)
                &&& self@.balance_of(from) >= total_of(recipients@)
            },
    {
        reveal_with_fuel(play, 3);
        let len: usize = recipients.len();
        if len == 0 {
            return Err(Halt::Error(RwaError::EmptyBatch));
        }
        if len > MAX_BATCH {
            return Err(Halt::Error(RwaError::BatchTooLarge));
        }
        self.validate_sender(env, from)?;

        let ghost all = play(plan_steps(self@, from, recipients@), old(env)@);
        let ghost tail = totals_steps(self@, from, recipients@);
        let mut total_amount: i128 = 0;
        let mut self_transfer_amount: i128 = 0;
        let mut new_holders: Vec<Address> = Vec::new();
        let mut i: usize = 0;
        proof {
            assert(recipients@.take(0) =~= seq![]);
            assert(new_holders@.to_set() =~= newcomers(self@.balances, from, recipients@.take(0)));
        }
        while i < len
            invariant
                i <= len,
                len == recipients@.len(),
                len <= MAX_BATCH,
                all == play(plan_steps(self@, from, recipients@), old(env)@),
                tail == totals_steps(self@, from, recipients@),
                all == play(recipients_steps(self@, from, recipients@, i as int) + tail, env@),
                all_positive(recipients@.take(i as int)),
                total_amount == total_of(recipients@.take(i as int)),
                self_transfer_amount == paid_to(recipients@.take(i as int), from),
                new_holders@.no_duplicates(),
                new_holders@.to_set() == newcomers(
                    self@.balances,
                    from,
                    recipients@.take(i as int),
                ),
                new_holders@.len() <= i,
            decreases len - i,
        {
            let entry = recipients[i];
            self.validate_recipient(env, from, entry.to, entry.amount)?;
            proof {
                lemma_next_leg(self@.balances, from, recipients@, i as int);
            }
            total_amount =
            match total_amount.checked_add(entry.amount) {
                Some(total) => total,
                None => return Err(Halt::Error(RwaError::BatchAmountOverflow)),
            };
            proof {
                lemma_totals(recipients@.take(i + 1), i + 1, from);
            }
            if entry.to == from {
                self_transfer_amount = self_transfer_amount + entry.amount;
            } else if read_balance(&self.balances, entry.to) == 0 && !contains_address(
                &new_holders,
                entry.to,
            ) {
                let ghost known = new_holders@;
                new_holders.push(entry.to);
                proof {
                    known.lemma_push_to_set_commute(entry.to);
                }
            }
            assert(new_holders@.to_set() =~= newcomers(
                self@.balances,
                from,
                recipients@.take(i + 1),
            ));
            i = i + 1;
        }
        assert(recipients@.take(len as int) =~= recipients@);

        let sender_balance_before = read_balance(&self.balances, from);
        if sender_balance_before < total_amount {
            return Err(Halt::Error(RwaError::InsufficientBalance));
        }
        proof {
            lemma_totals(recipients@, len as int, from);
            new_holders@.unique_seq_to_set();
        }
        let net_outgoing: i128 = total_amount - self_transfer_amount;
        let sender_balance_after: i128 = sender_balance_before - net_outgoing;
        ensure_holder_capacity(
            self,
            env,
            new_holders.len() as u32,
            sender_balance_before > 0 && sender_balance_after == 0,
        )?;
        Ok(TransferPlan { total_amount, sender_balance_after })
    }

    /// Moves one leg and registers a recipient that held nothing. The sender
    /// is looked at once all legs are moved.
    fn apply_transfer_leg(
        &self,
        env: &mut Env,
        balances: &mut Table<Address, i128>,
        from: Address,
        to: Address,
        amount: i128,
    ) -> (result: Result<(), Halt>)
        requires
            0 < amount <= balance_in(old(balances)@, from),
        ensures
            returns_run(
                final(env)@,
                result,
                play(
                    leg_steps(
                        old(balances)@,
                        self@.compliance_engine,
                        from,
                        RecipientEntry { to, amount },
                    ),
                    old(env)@,
                ),
            ),
            result is Ok ==> {
                &&& final(balances)@ == move_leg(
                    old(balances)@,
                    from,
                    RecipientEntry { to, amount },
                )
                &&& balance_in(final(balances)@, from) == balance_in(old(balances)@, from) - (
                if to == from {
                    0
                } else {
                    amount as int
                })
            },
    {
        let to_balance_before = read_balance(balances, to);
        spend_balance(balances, from, amount)?;
        receive_balance(balances, to, amount)?;
        if from != to && to_balance_before == 0 {
            register_holder(self, env, to)?;
        }
        Ok(())
    }

    /// Executes a validated transfer on `balances`. What is left after a
    /// failure is to be discarded.
    fn execute_transfer_plan(
        &self,
        env: &mut Env,
        balances: &mut Table<Address, i128>,
        from: Address,
        recipients: &Vec<RecipientEntry>,
        plan: &TransferPlan,
    ) -> (result: Result<(), Halt>)
        requires
            plan.total_amount == total_of(recipients@),
            plan.sender_balance_after == sender_after(old(balances)@, from, recipients@),
            all_positive(recipients@),
            balance_in(old(balances)@, from) >= total_of(recipients@),
        ensures
            returns_run(
                final(env)@,
                result,
                play(
                    execute_steps(
                        old(balances)@,
                        self@.compliance_engine,
                        from,
                        recipients@,
                        old(env)@.timestamp,
                    ),
                    old(env)@,
                ),
            ),
            result is Ok ==> final(balances)@ == pay(old(balances)@, from, recipients@),
    {
        let ghost engine = self@.compliance_engine;
        let ghost start = balances@;
        let ghost timestamp = env@.timestamp;
        let ghost all = play(
            execute_steps(start, engine, from, recipients@, timestamp),
            env@,
        );
        let ghost events = events_steps(from, recipients@, timestamp, 0);
        let ghost leaving = if total_of(recipients@) > 0 && sender_after(
            start,
            from,
            recipients@,
        ) == 0 {
            seq![Step::Ask(Call::UnregisterHolder { engine, addr: from })]
        } else {
            seq![]
        };
        assert(recipients@.take(0) =~= seq![]);
        let len: usize = recipients.len();
        let mut i: usize = 0;
        while i < len
            invariant
                i <= len,
                len == recipients@.len(),
                engine == self@.compliance_engine,
                all_positive(recipients@),
                balance_in(start, from) >= total_of(recipients@),
                all == play(
                    execute_steps(start, engine, from, recipients@, timestamp),
                    old(env)@,
                ),
                start == old(balances)@,
                timestamp == old(env)@.timestamp,
                env@.timestamp == timestamp,
                all == play(
                    legs_steps(start, engine, from, recipients@, i as int) + (leaving + events),
                    env@,
                ),
                balances@ == pay(start, from, recipients@.take(i as int)),
                balance_in(balances@, from) == sender_after(
                    start,
                    from,
                    recipients@.take(i as int),
                ),
            decreases len - i,
        {
            let entry = recipients[i];
            proof {
                assert(all_positive(recipients@.take(i as int))) by {
                    assert forall|j: int| 0 <= j < i implies (#[trigger] recipients@.take(
                        i as int,
                    )[j]).amount > 0 by {
                        assert(recipients@.take(i as int)[j] == recipients@[j]);
                    }
                }
                assert(recipients@[i as int].amount > 0);
                lemma_next_leg(start, from, recipients@, i as int);
                lemma_totals(recipients@, i + 1, from);
                lemma_totals(recipients@.take(i as int), i as int, from);
                assert(recipients@.take(i + 1).drop_last() =~= recipients@.take(i as int));
            }
            self.apply_transfer_leg(env, balances, from, entry.to, entry.amount)?;
            i = i + 1;
        }
        assert(recipients@.take(len as int) =~= recipients@);
        if plan.total_amount > 0 && plan.sender_balance_after == 0 {
            unregister_holder(self, env, from)?;
        }
        i = 0;
        while i < len
            invariant
                i <= len,
                len == recipients@.len(),
                env@.timestamp == timestamp,
                all == play(events_steps(from, recipients@, timestamp, i as int), env@),
            decreases len - i,
        {
            emit_transfer(env, from, recipients[i].to, recipients[i].amount);
            i = i + 1;
        }
        Ok(())
    }

    /// A transfer within the lock.
    fn transfer_within_guard(
        &mut self,
        env: &mut Env,
        spender: Option<Address>,
        from: Address,
        recipients: &Vec<RecipientEntry>,
    ) -> (result: Result<(), Halt>)
        ensures
            settles(
                old(self)@,
                final(self)@,
                old(env)@,
                final(env)@,
                result,
                transfer_steps(
                    (TokenView { transfer_lock: false, ..old(self)@ }),
                    old(env)@,
                    spender,
                    from,
                    recipients@,
                ),
                (TokenView {
                    transfer_lock: old(self)@.transfer_lock,
                    ..transferred(old(self)@, old(env)@, spender, from, recipients@)
                }),
            ),
    {
        reveal_with_fuel(play, 3);
        let ghost unlocked = TokenView { transfer_lock: false, ..self@ };
        proof {
            lemma_lock_unseen(self@, false, from, recipients@, 0);
            assert(plan_steps(unlocked, from, recipients@) == plan_steps(self@, from, recipients@));
        }
        env.require_auth(
            match spender {
                Some(spender) => spender,
                None => from,
            },
        )?;
        let plan = self.prepare_transfer_plan(env, from, recipients)?;
        proof {
            lemma_totals(recipients@, 1, from);
            assert(recipients@.take(1).drop_last() =~= seq![]);
            assert(recipients@.take(1).last() == recipients@[0]);
            reveal_with_fuel(total_of, 2);
            lemma_play_frame(plan_steps(self@, from, recipients@), old(env)@.called(
                Call::RequireAuth {
                    addr: match spender {
                        Some(spender) => spender,
                        None => from,
                    },
                },
            ));
        }
        let mut allowances = self.allowances.duplicate();
        if let Some(spender) = spender {
            spend_allowance(&mut allowances, env, from, spender, plan.total_amount)?;
        }
        let mut balances = self.balances.duplicate();
        self.execute_transfer_plan(env, &mut balances, from, recipients, &plan)?;
        self.allowances = allowances;
        self.balances = balances;
        Ok(())
    }

    /// A transfer out of `from`, on behalf of `spender` if there is one.
    fn guarded_transfer(
        &mut self,
        env: &mut Env,
        spender: Option<Address>,
        from: Address,
        recipients: &Vec<RecipientEntry>,
    ) -> (result: Result<(), Halt>)
        ensures
            settles(
                old(self)@,
                final(self)@,
                old(env)@,
                final(env)@,
                result,
                transfer_steps(old(self)@, old(env)@, spender, from, recipients@),
                transferred(old(self)@, old(env)@, spender, from, recipients@),
            ),
    {
        reveal_with_fuel(play, 3);
        self.enter_transfer_guard()?;
        let result = self.transfer_within_guard(env, spender, from, recipients);
        self.exit_transfer_guard();
        result
    }

    /// Moves `amount` from `from` to `to`.
    pub fn transfer(
        &mut self,
        env: &mut Env,
        from: Address,
        to: Address,
        amount: i128,
    ) -> (result: Result<(), Halt>)
        ensures
            settles(
                old(self)@,
                final(self)@,
                old(env)@,
                final(env)@,
                result,
                transfer_steps(
                    old(self)@,
                    old(env)@,
                    None,
                    from,
                    seq![RecipientEntry { to, amount }],
                ),
                transferred(
                    old(self)@,
                    old(env)@,
                    None,
                    from,
                    seq![RecipientEntry { to, amount }],
                ),
            ),
    {
        let recipients = vec![RecipientEntry { to, amount }];
        assert(recipients@ =~= seq![RecipientEntry { to, amount }]);
        self.guarded_transfer(env, None, from, &recipients)
    }

    /// Moves `amount` from `from` to `to` on the allowance of `spender`.
    pub fn transfer_from(
        &mut self,
        env: &mut Env,
        spender: Address,
        from: Address,
        to: Address,
        amount: i128,
    ) -> (result: Result<(), Halt>)
        ensures
            settles(
                old(self)@,
                final(self)@,
                old(env)@,
                final(env)@,
                result,
                transfer_steps(
                    old(self)@,
                    old(env)@,
                    Some(spender),
                    from,
                    seq![RecipientEntry { to, amount }],
                ),
                transferred(
                    old(self)@,
                    old(env)@,
                    Some(spender),
                    from,
                    seq![RecipientEntry { to, amount }],
                ),
            ),
    {
        let recipients = vec![RecipientEntry { to, amount }];
        assert(recipients@ =~= seq![RecipientEntry { to, amount }]);
        self.guarded_transfer(env, Some(spender), from, &recipients)
    }

    /// Moves all legs of a batch out of `from`, or none of them.
    pub fn batch_transfer(
        &mut self,
        env: &mut Env,
        from: Address,
        recipients: Vec<RecipientEntry>,
    ) -> (result: Result<(), Halt>)
        ensures
            settles(
                old(self)@,
                final(self)@,
                old(env)@,
                final(env)@,
                result,
                transfer_steps(old(self)@, old(env)@, None, from, recipients@),
                transferred(old(self)@, old(env)@, None, from, recipients@),
            ),
    {
        self.guarded_transfer(env, None, from, &recipients)
    }

    /// Moves all legs of a batch out of `from` on the allowance of `spender`,
    /// or none of them. The allowance is used once, for the batch total.
    pub fn batch_transfer_from(
        &mut self,
        env: &mut Env,
        spender: Address,
        from: Address,
        recipients: Vec<RecipientEntry>,
    ) -> (result: Result<(), Halt>)
        ensures
            settles(
                old(self)@,
                final(self)@,
                old(env)@,
                final(env)@,
                result,
                transfer_steps(old(self)@, old(env)@, Some(spender), from, recipients@),
                transferred(old(self)@, old(env)@, Some(spender), from, recipients@),
            ),
    {
        self.guarded_transfer(env, Some(spender), from, &recipients)
    }
}

/// What one more leg adds to the total, to what an address gets, and to the
/// newcomers.
proof fn lemma_next_leg(
    balances: Map<Address, i128>,
    from: Address,
    recipients: Seq<RecipientEntry>,
    i: int,
)
    requires
        0 <= i < recipients.len(),
        all_positive(recipients.take(i)),
    ensures
        total_of(recipients.take(i + 1)) == total_of(recipients.take(i)) + recipients[i].amount,
        paid_to(recipients.take(i + 1), from) == paid_to(recipients.take(i), from) + (
        if recipients[i].to == from {
            recipients[i].amount as int
        } else {
            0
        }),
        recipients[i].amount > 0 ==> all_positive(recipients.take(i + 1)),
        newcomers(balances, from, recipients.take(i + 1)) == (if recipients[i].to != from
            && balance_in(balances, recipients[i].to) == 0 {
            newcomers(balances, from, recipients.take(i)).insert(recipients[i].to)
        } else {
            newcomers(balances, from, recipients.take(i))
        }),
{
    let now = recipients.take(i);
    let next = recipients.take(i + 1);
    assert(next.drop_last() =~= now);
    assert(next.last() == recipients[i]);
    if recipients[i].amount > 0 {
        assert forall|j: int| 0 <= j < next.len() implies (#[trigger] next[j]).amount > 0 by {
            if j < i {
                assert(now[j] == next[j]);
            }
        }
    }
    let to = |r: RecipientEntry| r.to;
    assert(next.map_values(to) =~= now.map_values(to).push(recipients[i].to));
    now.map_values(to).lemma_push_to_set_commute(recipients[i].to);
    assert(newcomers(balances, from, next) =~= (if recipients[i].to != from && balance_in(
        balances,
        recipients[i].to,
    ) == 0 {
        newcomers(balances, from, now).insert(recipients[i].to)
    } else {
        newcomers(balances, from, now)
    }));
}

} // verus!
