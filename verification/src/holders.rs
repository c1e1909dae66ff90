//! Who holds tokens, and what the compliance engine is told of it.

use vstd::prelude::*;

use crate::balance::balance_in;
use crate::compliance::ComplianceRulesMirror;
use crate::host::{ask, lemma_play_frame, play, take_step, Call, Effect, EnvView, Reply, Step};
use crate::operation::{single_leg, Operation};
use crate::solvency::{
    burn_takes_exactly, lemma_pay, lemma_transfer_validated, mint_adds_exactly,
    operations_keep_solvency, solvent, sound, sum_of, transfer_moves_exactly,
    validated_transfer_is_covered,
};
use crate::supply::{burn_steps, burned, mint_steps, minted};
use crate::token::TokenView;
use crate::transfer::{
    all_positive, events_steps, execute_steps, legs_steps, lemma_totals, newcomers, paid_to, pay,
    plan_steps, recipients_steps, sender_after, sender_steps, total_of, totals_steps,
    transfer_steps, transferred, MAX_BATCH,
};
use crate::types::{Address, Halt, RecipientEntry, RwaError, Trap};

verus! {

broadcast use crate::host::group_play;

/// How often steps make a call.
pub open spec fn times(steps: Seq<Step>, call: Call) -> nat
    decreases steps.len(),
{
    if steps.len() == 0 {
        0
    } else {
        (if steps[0] == Step::Ask(call) {
            1nat
        } else {
            0
        }) + times(steps.drop_first(), call)
    }
}

/// How often a log has a call.
pub open spec fn told(log: Seq<Effect>, call: Call) -> nat
    decreases log.len(),
{
    if log.len() == 0 {
        0
    } else {
        told(log.drop_last(), call) + (if log.last() == Effect::Call(call) {
            1nat
        } else {
            0
        })
    }
}

broadcast proof fn lemma_times_concat(a: Seq<Step>, b: Seq<Step>, call: Call)
    ensures
        #[trigger] times(a + b, call) == times(a, call) + times(b, call),
    decreases a.len(),
{
    if a.len() == 0 {
        assert(a + b =~= b);
    } else {
        assert((a + b).drop_first() =~= a.drop_first() + b);
        lemma_times_concat(a.drop_first(), b, call);
    }
}

broadcast proof fn lemma_times_push(steps: Seq<Step>, step: Step, call: Call)
    ensures
        #[trigger] times(steps.push(step), call) == times(steps, call) + (if step == Step::Ask(
            call,
        ) {
            1nat
        } else {
            0
        }),
{
    reveal_with_fuel(times, 2);
    assert(steps.push(step) =~= steps + seq![step]);
    lemma_times_concat(steps, seq![step], call);
    assert(seq![step].drop_first() =~= seq![]);
}

broadcast proof fn lemma_told_push(log: Seq<Effect>, effect: Effect, call: Call)
    ensures
        #[trigger] told(log.push(effect), call) == told(log, call) + (if effect == Effect::Call(
            call,
        ) {
            1nat
        } else {
            0
        }),
{
    assert(log.push(effect).drop_last() =~= log);
}

/// Whether a call is about becoming a holder, or ceasing to be one.
pub open spec fn about_holders(call: Call) -> bool {
    call is RegisterHolder || call is UnregisterHolder
}

/// Steps that all pass leave a call about holders in the log as often as they
/// make it.
pub proof fn lemma_success_tells(steps: Seq<Step>, env: EnvView, call: Call)
    requires
        play(steps, env).halt is None,
        about_holders(call),
    ensures
        told(play(steps, env).env.log, call) == told(env.log, call) + times(steps, call),
    decreases steps.len(),
{
    broadcast use lemma_told_push;

    if steps.len() > 0 {
        lemma_success_tells(steps.drop_first(), take_step(steps[0], env).env, call);
    }
}

proof fn lemma_recipients_tell_nothing(
    token: TokenView,
    from: Address,
    recipients: Seq<RecipientEntry>,
    i: int,
    call: Call,
)
    requires
        about_holders(call),
    ensures
        times(recipients_steps(token, from, recipients, i), call) == 0,
    decreases recipients.len() - i,
{
    broadcast use {lemma_times_concat, lemma_times_push};

    reveal_with_fuel(times, 5);
    if i < recipients.len() {
        lemma_recipients_tell_nothing(token, from, recipients, i + 1, call);
    }
}

proof fn lemma_events_tell_nothing(
    from: Address,
    recipients: Seq<RecipientEntry>,
    timestamp: u64,
    i: int,
    call: Call,
)
    ensures
        times(events_steps(from, recipients, timestamp, i), call) == 0,
    decreases recipients.len() - i,
{
    broadcast use {lemma_times_concat, lemma_times_push};

    reveal_with_fuel(times, 2);
    if i < recipients.len() {
        lemma_events_tell_nothing(from, recipients, timestamp, i + 1, call);
    }
}

/// What one leg more adds to what an address gets, which never falls.
proof fn lemma_paid_take(recipients: Seq<RecipientEntry>, i: int, addr: Address)
    requires
        all_positive(recipients),
        0 <= i < recipients.len(),
    ensures
        paid_to(recipients.take(i + 1), addr) == paid_to(recipients.take(i), addr) + (
        if recipients[i].to == addr {
            recipients[i].amount as int
        } else {
            0
        }),
        0 <= paid_to(recipients.take(i + 1), addr) <= paid_to(recipients, addr),
    decreases recipients.len() - i,
{
    let next = recipients.take(i + 1);
    assert(next.drop_last() =~= recipients.take(i));
    assert(next.last() == recipients[i]);
    assert(all_positive(next));
    lemma_totals(next, i + 1, addr);
    if i + 1 == recipients.len() {
        assert(next =~= recipients);
    } else {
        lemma_paid_take(recipients, i + 1, addr);
    }
}

/// The legs from the `i`-th on register a recipient exactly if it held nothing
/// at first, gets something, and has got nothing before. They unregister
/// nobody.
proof fn lemma_legs_tell(
    balances: Map<Address, i128>,
    engine: Address,
    from: Address,
    recipients: Seq<RecipientEntry>,
    i: int,
    addr: Address,
)
    requires
        sound(balances),
        sum_of(balances) <= i128::MAX,
        all_positive(recipients),
        total_of(recipients) <= balance_in(balances, from),
        0 <= i <= recipients.len(),
    ensures
        times(
            legs_steps(balances, engine, from, recipients, i),
            Call::RegisterHolder { engine, addr },
        ) == (if addr != from && balance_in(balances, addr) == 0 && paid_to(
            recipients.take(i),
            addr,
        ) == 0 && paid_to(recipients, addr) > 0 {
            1nat
        } else {
            0
        }),
        times(
            legs_steps(balances, engine, from, recipients, i),
            Call::UnregisterHolder { engine, addr },
        ) == 0,
    decreases recipients.len() - i,
{
    broadcast use {lemma_times_concat, lemma_times_push};

    reveal_with_fuel(times, 2);
    if i == recipients.len() {
        assert(recipients.take(i) =~= recipients);
    } else {
        lemma_legs_tell(balances, engine, from, recipients, i + 1, addr);
        lemma_paid_take(recipients, i, addr);
        let done = recipients.take(i);
        assert(all_positive(done));
        lemma_totals(recipients, i, addr);
        lemma_totals(done, i, addr);
        lemma_pay(balances, from, done);
        assert(balance_in(balances, addr) >= 0);
        assert(balance_in(pay(balances, from, done), addr) >= 0);
    }
}

/// The calls about holders that the execution of a covered transfer makes.
proof fn lemma_execution_tells(
    token: TokenView,
    from: Address,
    recipients: Seq<RecipientEntry>,
    timestamp: u64,
    addr: Address,
)
    requires
        solvent(token),
        all_positive(recipients),
        0 < total_of(recipients) <= token.balance_of(from),
    ensures
        ({
            let engine = token.compliance_engine;
            let steps = execute_steps(token.balances, engine, from, recipients, timestamp);
            &&& times(steps, Call::RegisterHolder { engine, addr }) == (if addr != from
                && token.balance_of(addr) == 0 && paid_to(recipients, addr) > 0 {
                1nat
            } else {
                0
            })
            &&& times(steps, Call::UnregisterHolder { engine, addr }) == (if addr == from
                && sender_after(token.balances, from, recipients) == 0 {
                1nat
            } else {
                0
            })
        }),
{
    broadcast use {lemma_times_concat, lemma_times_push};

    reveal_with_fuel(times, 2);
    let engine = token.compliance_engine;
    let register = Call::RegisterHolder { engine, addr };
    let unregister = Call::UnregisterHolder { engine, addr };
    lemma_events_tell_nothing(from, recipients, timestamp, 0, register);
    lemma_events_tell_nothing(from, recipients, timestamp, 0, unregister);
    lemma_legs_tell(token.balances, engine, from, recipients, 0, addr);
    assert(recipients.take(0) =~= seq![]);
}

/// The calls about holders that a covered transfer makes are those of its
/// execution.
proof fn lemma_transfer_tells(
    token: TokenView,
    env: EnvView,
    spender: Option<Address>,
    from: Address,
    recipients: Seq<RecipientEntry>,
    call: Call,
)
    requires
        about_holders(call),
    ensures
        times(transfer_steps(token, env, spender, from, recipients), call) == times(
            execute_steps(
                token.balances,
                token.compliance_engine,
                from,
                recipients,
                env.timestamp,
            ),
            call,
        ),
{
    broadcast use {lemma_times_concat, lemma_times_push};

    reveal_with_fuel(times, 3);
    lemma_recipients_tell_nothing(token, from, recipients, 0, call);
}

#[verifier::rlimit(30)]
proof fn lemma_admin_tells_nothing(
    operation: Operation,
    token: TokenView,
    env: EnvView,
    call: Call,
)
    requires
        about_holders(call),
        operation is SetAdmin
            || operation is ProposeAdmin
            || operation is AcceptAdmin
            || operation is UpdateKycRegistry
            || operation is UpdateComplianceEngine,
    ensures
        times(operation.steps(token, env), call) == 0,
{
    broadcast use {lemma_times_concat, lemma_times_push};

    reveal_with_fuel(times, 7);
}

#[verifier::rlimit(30)]
proof fn lemma_access_tells_nothing(
    operation: Operation,
    token: TokenView,
    env: EnvView,
    call: Call,
)
    requires
        about_holders(call),
        operation is AssignRole
            || operation is RevokeRole
            || operation is Freeze
            || operation is Unfreeze
            || operation is Approve,
    ensures
        times(operation.steps(token, env), call) == 0,
{
    broadcast use {lemma_times_concat, lemma_times_push};

    reveal_with_fuel(times, 7);
}

#[verifier::rlimit(30)]
proof fn lemma_record_tells_nothing(
    operation: Operation,
    token: TokenView,
    env: EnvView,
    call: Call,
)
    requires
        about_holders(call),
        operation is SetComplianceMetadata
            || operation is SetExternalUri
            || operation is Migrate
            || operation is MigrateSchema,
    ensures
        times(operation.steps(token, env), call) == 0,
{
    broadcast use {lemma_times_concat, lemma_times_push};

    reveal_with_fuel(times, 7);
}

#[verifier::rlimit(40)]
proof fn lemma_recovery_tells_nothing(
    operation: Operation,
    token: TokenView,
    env: EnvView,
    call: Call,
)
    requires
        about_holders(call),
        operation is ConfigureRecovery
            || operation is ProposeRecovery
            || operation is ApproveRecovery
            || operation is ExecuteRecovery
            || operation is CancelRecovery,
    ensures
        times(operation.steps(token, env), call) == 0,
{
    broadcast use {lemma_times_concat, lemma_times_push};

    reveal_with_fuel(times, 7);
}

/// Whether `addr` becomes a holder where the token changes from `before` to
/// `after`.
pub open spec fn joins(before: TokenView, after: TokenView, addr: Address) -> bool {
    before.balance_of(addr) == 0 && after.balance_of(addr) > 0
}

/// Whether `addr` ceases to be a holder where the token changes from `before`
/// to `after`.
pub open spec fn leaves(before: TokenView, after: TokenView, addr: Address) -> bool {
    before.balance_of(addr) > 0 && after.balance_of(addr) == 0
}

/// Whether the log of a run tells the engine once that `addr` became a holder,
/// or once that it ceased to be one, if it did, and else nothing of it.
pub open spec fn tells_of(
    before: TokenView,
    after: TokenView,
    start: Seq<Effect>,
    end: Seq<Effect>,
    addr: Address,
) -> bool {
    let register = Call::RegisterHolder { engine: before.compliance_engine, addr };
    let unregister = Call::UnregisterHolder { engine: before.compliance_engine, addr };
    &&& told(end, register) == told(start, register) + (if joins(before, after, addr) {
        1nat
    } else {
        0
    })
    &&& told(end, unregister) == told(start, unregister) + (if leaves(before, after, addr) {
        1nat
    } else {
        0
    })
}

proof fn lemma_transfer_tells_of(
    token: TokenView,
    env: EnvView,
    spender: Option<Address>,
    from: Address,
    recipients: Seq<RecipientEntry>,
    addr: Address,
)
    requires
        solvent(token),
        play(transfer_steps(token, env, spender, from, recipients), env).halt is None,
    ensures
        tells_of(
            token,
            transferred(token, env, spender, from, recipients),
            env.log,
            play(transfer_steps(token, env, spender, from, recipients), env).env.log,
            addr,
        ),
{
    let engine = token.compliance_engine;
    let steps = transfer_steps(token, env, spender, from, recipients);
    let after = transferred(token, env, spender, from, recipients);
    lemma_transfer_validated(token, env, spender, from, recipients);
    transfer_moves_exactly(token, env, spender, from, recipients);
    let register = Call::RegisterHolder { engine, addr };
    let unregister = Call::UnregisterHolder { engine, addr };
    lemma_transfer_tells(token, env, spender, from, recipients, register);
    lemma_transfer_tells(token, env, spender, from, recipients, unregister);
    lemma_execution_tells(token, from, recipients, env.timestamp, addr);
    lemma_success_tells(steps, env, register);
    lemma_success_tells(steps, env, unregister);
    lemma_totals(recipients, recipients.len() as int, addr);
    assert(balance_in(token.balances, addr) >= 0);
    assert(after.balance_of(addr) == token.balance_of(addr) + paid_to(recipients, addr) - (if addr
        == from {
        total_of(recipients)
    } else {
        0
    }));
}

proof fn lemma_mint_tells_of(
    token: TokenView,
    env: EnvView,
    caller: Address,
    to: Address,
    amount: i128,
    addr: Address,
)
    requires
        solvent(token),
        play(mint_steps(token, env, caller, to, amount), env).halt is None,
    ensures
        tells_of(
            token,
            minted(token, to, amount),
            env.log,
            play(mint_steps(token, env, caller, to, amount), env).env.log,
            addr,
        ),
{
    broadcast use {lemma_times_concat, lemma_times_push};

    reveal_with_fuel(times, 4);
    let engine = token.compliance_engine;
    let steps = mint_steps(token, env, caller, to, amount);
    let after = minted(token, to, amount);
    mint_adds_exactly(token, env, caller, to, amount);
    lemma_success_tells(steps, env, Call::RegisterHolder { engine, addr });
    lemma_success_tells(steps, env, Call::UnregisterHolder { engine, addr });
    assert(balance_in(token.balances, addr) >= 0);
    assert(after.balance_of(addr) == token.balance_of(addr) + (if addr == to {
        amount as int
    } else {
        0
    }));
}

proof fn lemma_burn_tells_of(
    token: TokenView,
    env: EnvView,
    spender: Option<Address>,
    from: Address,
    amount: i128,
    addr: Address,
)
    requires
        solvent(token),
        play(burn_steps(token, env, spender, from, amount), env).halt is None,
    ensures
        tells_of(
            token,
            burned(token, env, spender, from, amount),
            env.log,
            play(burn_steps(token, env, spender, from, amount), env).env.log,
            addr,
        ),
{
    broadcast use {lemma_times_concat, lemma_times_push};

    reveal_with_fuel(times, 5);
    let engine = token.compliance_engine;
    let steps = burn_steps(token, env, spender, from, amount);
    let after = burned(token, env, spender, from, amount);
    burn_takes_exactly(token, env, spender, from, amount);
    lemma_success_tells(steps, env, Call::RegisterHolder { engine, addr });
    lemma_success_tells(steps, env, Call::UnregisterHolder { engine, addr });
    assert(balance_in(token.balances, addr) >= 0);
    assert(after.balance_of(addr) == token.balance_of(addr) - (if addr == from {
        amount as int
    } else {
        0
    }));
}

proof fn lemma_others_tell_nothing(
    operation: Operation,
    token: TokenView,
    env: EnvView,
    call: Call,
)
    requires
        about_holders(call),
        !operation.moves_tokens(),
    ensures
        times(operation.steps(token, env), call) == 0,
{
    match operation {
        Operation::SetAdmin { .. }
        | Operation::ProposeAdmin { .. }
        | Operation::AcceptAdmin
        | Operation::UpdateKycRegistry { .. }
        | Operation::UpdateComplianceEngine { .. } => {
            lemma_admin_tells_nothing(operation, token, env, call);
        },
        Operation::AssignRole { .. }
        | Operation::RevokeRole { .. }
        | Operation::Freeze { .. }
        | Operation::Unfreeze { .. }
        | Operation::Approve { .. } => {
            lemma_access_tells_nothing(operation, token, env, call);
        },
        Operation::SetComplianceMetadata { .. }
        | Operation::SetExternalUri { .. }
        | Operation::Migrate { .. }
        | Operation::MigrateSchema { .. } => {
            lemma_record_tells_nothing(operation, token, env, call);
        },
        _ => {
            lemma_recovery_tells_nothing(operation, token, env, call);
        },
    }
}

/// Every operation that goes through tells the compliance engine exactly once
/// that an address came to hold tokens, or that it holds none any more. Of an
/// address that neither is true of, the engine is told nothing.
pub proof fn engine_learns_of_every_holder(
    operation: Operation,
    token: TokenView,
    env: EnvView,
    addr: Address,
)
    requires
        solvent(token),
        play(operation.steps(token, env), env).halt is None,
    ensures
        tells_of(
            token,
            operation.outcome(token, env),
            env.log,
            play(operation.steps(token, env), env).env.log,
            addr,
        ),
{
    match operation {
        Operation::Transfer { from, to, amount } => {
            lemma_transfer_tells_of(token, env, None, from, single_leg(to, amount), addr);
        },
        Operation::TransferFrom { spender, from, to, amount } => {
            lemma_transfer_tells_of(
                token,
                env,
                Some(spender),
                from,
                single_leg(to, amount),
                addr,
            );
        },
        Operation::BatchTransfer { from, recipients } => {
            lemma_transfer_tells_of(token, env, None, from, recipients@, addr);
        },
        Operation::BatchTransferFrom { spender, from, recipients } => {
            lemma_transfer_tells_of(token, env, Some(spender), from, recipients@, addr);
        },
        Operation::Mint { caller, to, amount } => {
            lemma_mint_tells_of(token, env, caller, to, amount, addr);
        },
        Operation::Burn { from, amount } => {
            lemma_burn_tells_of(token, env, None, from, amount, addr);
        },
        Operation::BurnFrom { spender, from, amount } => {
            lemma_burn_tells_of(token, env, Some(spender), from, amount, addr);
        },
        _ => {
            let engine = token.compliance_engine;
            let register = Call::RegisterHolder { engine, addr };
            let unregister = Call::UnregisterHolder { engine, addr };
            lemma_others_tell_nothing(operation, token, env, register);
            lemma_others_tell_nothing(operation, token, env, unregister);
            lemma_success_tells(operation.steps(token, env), env, register);
            lemma_success_tells(operation.steps(token, env), env, unregister);
            assert(operation.outcome(token, env).balances == token.balances);
        },
    }
}

/// The addresses that hold tokens.
pub open spec fn holders(token: TokenView) -> Set<Address> {
    Set::new(|addr: Address| token.balance_of(addr) > 0)
}

/// The holders that an engine has on record once it was told what a log says,
/// if it had `start` on record before.
pub open spec fn registered_after(
    start: Set<Address>,
    log: Seq<Effect>,
    engine: Address,
) -> Set<Address>
    decreases log.len(),
{
    if log.len() == 0 {
        start
    } else {
        let before = registered_after(start, log.drop_last(), engine);
        match log.last() {
            Effect::Call(Call::RegisterHolder { engine: told, addr }) => if told == engine {
                before.insert(addr)
            } else {
                before
            },
            Effect::Call(Call::UnregisterHolder { engine: told, addr }) => if told == engine {
                before.remove(addr)
            } else {
                before
            },
            _ => before,
        }
    }
}

/// What is on record of an address that was told of in one way only.
proof fn lemma_registered_after(
    start: Set<Address>,
    log: Seq<Effect>,
    engine: Address,
    addr: Address,
)
    ensures
        ({
            let joined = told(log, Call::RegisterHolder { engine, addr }) > 0;
            let gone = told(log, Call::UnregisterHolder { engine, addr }) > 0;
            let known = registered_after(start, log, engine).contains(addr);
            &&& !gone ==> known == (start.contains(addr) || joined)
            &&& !joined ==> known == (start.contains(addr) && !gone)
        }),
    decreases log.len(),
{
    if log.len() > 0 {
        lemma_registered_after(start, log.drop_last(), engine, addr);
    }
}

proof fn lemma_told_split(log: Seq<Effect>, k: int, call: Call)
    requires
        0 <= k <= log.len(),
    ensures
        told(log, call) == told(log.take(k), call) + told(log.skip(k), call),
    decreases log.len(),
{
    if k == log.len() {
        assert(log.take(k) =~= log);
        assert(log.skip(k) =~= seq![]);
    } else {
        lemma_told_split(log.drop_last(), k, call);
        assert(log.drop_last().take(k) =~= log.take(k));
        assert(log.drop_last().skip(k) =~= log.skip(k).drop_last());
        assert(log.skip(k).last() == log.last());
    }
}

/// A log that tells of each address as its holding changed takes the record
/// from the old holders to the new ones.
proof fn lemma_record_follows(
    before: TokenView,
    after: TokenView,
    start: Seq<Effect>,
    end: Seq<Effect>,
)
    requires
        sound(before.balances),
        sound(after.balances),
        start.is_prefix_of(end),
        forall|addr: Address| #[trigger] tells_of(before, after, start, end, addr),
    ensures
        registered_after(
            holders(before),
            end.skip(start.len() as int),
            before.compliance_engine,
        ) == holders(after),
{
    let engine = before.compliance_engine;
    let k = start.len() as int;
    let record = registered_after(holders(before), end.skip(k), engine);
    assert forall|addr: Address| record.contains(addr) == holders(after).contains(addr) by {
        assert(tells_of(before, after, start, end, addr));
        assert(end.take(k) =~= start);
        lemma_told_split(end, k, Call::RegisterHolder { engine, addr });
        lemma_told_split(end, k, Call::UnregisterHolder { engine, addr });
        lemma_registered_after(holders(before), end.skip(k), engine, addr);
        assert(balance_in(before.balances, addr) >= 0);
        assert(balance_in(after.balances, addr) >= 0);
    }
    assert(record =~= holders(after));
}

/// Where the engine has exactly the holders on record before an operation, it
/// has exactly the holders on record after it, if the operation goes through.
pub proof fn registrations_match_holdings(operation: Operation, token: TokenView, env: EnvView)
    requires
        solvent(token),
        play(operation.steps(token, env), env).halt is None,
    ensures
        registered_after(
            holders(token),
            play(operation.steps(token, env), env).env.log.skip(env.log.len() as int),
            token.compliance_engine,
        ) == holders(operation.outcome(token, env)),
{
    let steps = operation.steps(token, env);
    let after = operation.outcome(token, env);
    let end = play(steps, env).env.log;
    operations_keep_solvency(operation, token, env);
    lemma_play_frame(steps, env);
    assert forall|addr: Address| #[trigger] tells_of(token, after, env.log, end, addr) by {
        engine_learns_of_every_holder(operation, token, env, addr);
    }
    lemma_record_follows(token, after, env.log, end);
}

/// The token once a planned transfer was executed.
pub open spec fn executed(
    token: TokenView,
    from: Address,
    recipients: Seq<RecipientEntry>,
) -> TokenView {
    TokenView { balances: pay(token.balances, from, recipients), ..token }
}

/// Where the engine has exactly the holders on record, the execution of a
/// planned transfer keeps it so, if its calls succeed. The sender is taken off
/// the record, once, exactly if all it had went to others; a recipient that
/// held nothing is put on it once, however often it is listed; nothing is told
/// of anyone else.
pub proof fn execution_keeps_registrations(
    token: TokenView,
    planned: EnvView,
    env: EnvView,
    from: Address,
    recipients: Seq<RecipientEntry>,
    addr: Address,
)
    requires
        solvent(token),
        play(plan_steps(token, from, recipients), planned).halt is None,
        play(
            execute_steps(
                token.balances,
                token.compliance_engine,
                from,
                recipients,
                env.timestamp,
            ),
            env,
        ).halt is None,
    ensures
        ({
            let engine = token.compliance_engine;
            let steps = execute_steps(token.balances, engine, from, recipients, env.timestamp);
            let after = executed(token, from, recipients);
            let news = play(steps, env).env.log.skip(env.log.len() as int);
            let drained = total_of(recipients) - paid_to(recipients, from) == token.balance_of(
                from,
            );
            &&& registered_after(holders(token), news, engine) == holders(after)
            &&& told(news, Call::UnregisterHolder { engine, addr }) == (if addr == from && drained {
                1nat
            } else {
                0
            })
            &&& told(news, Call::RegisterHolder { engine, addr }) == (if joins(
                token,
                after,
                addr,
            ) {
                1nat
            } else {
                0
            })
        }),
{
    let engine = token.compliance_engine;
    let steps = execute_steps(token.balances, engine, from, recipients, env.timestamp);
    let after = executed(token, from, recipients);
    let end = play(steps, env).env.log;
    validated_transfer_is_covered(token, from, recipients, planned);
    lemma_pay(token.balances, from, recipients);
    lemma_play_frame(steps, env);
    assert forall|a: Address| #[trigger] tells_of(token, after, env.log, end, a) by {
        lemma_execution_tells(token, from, recipients, env.timestamp, a);
        lemma_success_tells(steps, env, Call::RegisterHolder { engine, addr: a });
        lemma_success_tells(steps, env, Call::UnregisterHolder { engine, addr: a });
        lemma_totals(recipients, recipients.len() as int, a);
        assert(balance_in(token.balances, a) >= 0);
        assert(after.balance_of(a) == balance_in(pay(token.balances, from, recipients), a));
    }
    lemma_record_follows(token, after, env.log, end);
    assert(tells_of(token, after, env.log, end, addr));
    assert(end.take(env.log.len() as int) =~= env.log);
    lemma_told_split(end, env.log.len() as int, Call::RegisterHolder { engine, addr });
    lemma_told_split(end, env.log.len() as int, Call::UnregisterHolder { engine, addr });
    lemma_execution_tells(token, from, recipients, env.timestamp, addr);
    lemma_success_tells(steps, env, Call::UnregisterHolder { engine, addr });
}

/// An address gets something from positive legs exactly if one goes to it.
proof fn lemma_paid_iff_listed(recipients: Seq<RecipientEntry>, addr: Address)
    requires
        all_positive(recipients),
    ensures
        paid_to(recipients, addr) > 0 <==> recipients.map_values(
            |r: RecipientEntry| r.to,
        ).to_set().contains(addr),
    decreases recipients.len(),
{
    let to = |r: RecipientEntry| r.to;
    let all = recipients.map_values(to);
    if recipients.len() > 0 {
        let rest = recipients.drop_last();
        let last = recipients.last();
        assert(last == recipients[recipients.len() - 1]);
        assert forall|i: int| 0 <= i < rest.len() implies (#[trigger] rest[i]).amount > 0 by {
            assert(rest[i] == recipients[i]);
        }
        lemma_paid_iff_listed(rest, addr);
        lemma_totals(rest, rest.len() as int, addr);
        assert(all =~= rest.map_values(to).push(last.to));
        rest.map_values(to).lemma_push_to_set_commute(last.to);
    }
}

/// A transfer that goes through adds the newcomers to the holders and takes
/// the sender out if it is drained.
pub proof fn transfer_changes_holder_count(
    token: TokenView,
    env: EnvView,
    spender: Option<Address>,
    from: Address,
    recipients: Seq<RecipientEntry>,
)
    requires
        solvent(token),
        play(transfer_steps(token, env, spender, from, recipients), env).halt is None,
    ensures
        holders(token).finite(),
        holders(transferred(token, env, spender, from, recipients)).len() == holders(token).len()
            + newcomers(token.balances, from, recipients).len() - (if sender_after(
            token.balances,
            from,
            recipients,
        ) == 0 {
            1int
        } else {
            0
        }),
{
    let after = transferred(token, env, spender, from, recipients);
    lemma_transfer_validated(token, env, spender, from, recipients);
    transfer_moves_exactly(token, env, spender, from, recipients);
    let old_holders = holders(token);
    let new_holders = newcomers(token.balances, from, recipients);
    assert(old_holders.subset_of(token.balances.dom()));
    vstd::set_lib::lemma_set_subset_finite(token.balances.dom(), old_holders);
    let listed = recipients.map_values(|r: RecipientEntry| r.to).to_set();
    vstd::seq_lib::seq_to_set_is_finite(recipients.map_values(|r: RecipientEntry| r.to));
    vstd::set_lib::lemma_set_subset_finite(listed, new_holders);
    assert(old_holders.disjoint(new_holders));
    vstd::set_lib::lemma_set_disjoint_lens(old_holders, new_holders);
    let grown = old_holders + new_holders;
    let drained = sender_after(token.balances, from, recipients) == 0;
    assert forall|addr: Address|
        holders(after).contains(addr) == (grown.contains(addr) && !(drained && addr == from)) by {
        lemma_paid_iff_listed(recipients, addr);
        lemma_totals(recipients, recipients.len() as int, addr);
        assert(balance_in(token.balances, addr) >= 0);
        assert(after.balance_of(addr) == token.balance_of(addr) + paid_to(recipients, addr) - (
        if addr == from {
            total_of(recipients)
        } else {
            0
        }));
    }
    if drained {
        assert(holders(after) =~= grown.remove(from));
        assert(old_holders.contains(from));
    } else {
        assert(holders(after) =~= grown);
    }
}

/// The surroundings of a transfer where it comes to the holder cap: its caller
/// has been authorized and its parties have been validated.
pub open spec fn at_holder_cap(
    token: TokenView,
    env: EnvView,
    spender: Option<Address>,
    from: Address,
    recipients: Seq<RecipientEntry>,
) -> EnvView {
    let addr = match spender {
        Some(spender) => spender,
        None => from,
    };
    let authorized = ask(env, Call::RequireAuth { addr }).env;
    let sender = play(sender_steps(token, from), authorized).env;
    play(recipients_steps(token, from, recipients, 0), sender).env
}

/// A transfer that brings in new holders stays within the engine's holder cap:
/// where the engine's count was right before, there are at most as many holders
/// after as the cap allows. The engine counts in the range of a `u32`, so the
/// holders have to fit in there.
pub proof fn transfer_keeps_the_holder_cap(
    token: TokenView,
    env: EnvView,
    spender: Option<Address>,
    from: Address,
    recipients: Seq<RecipientEntry>,
    rules: ComplianceRulesMirror,
    count: u32,
)
    requires
        solvent(token),
        play(transfer_steps(token, env, spender, from, recipients), env).halt is None,
        at_holder_cap(token, env, spender, from, recipients).inbox[0] == Reply::Rules(rules),
        at_holder_cap(token, env, spender, from, recipients).inbox[1] == Reply::Count(count),
        rules.max_holders > 0,
        count == holders(token).len(),
        holders(transferred(token, env, spender, from, recipients)).len() <= u32::MAX,
        newcomers(token.balances, from, recipients).len() > 0,
    ensures
        holders(transferred(token, env, spender, from, recipients)).len() <= rules.max_holders,
{
    reveal_with_fuel(play, 3);
    transfer_changes_holder_count(token, env, spender, from, recipients);
    lemma_transfer_validated(token, env, spender, from, recipients);
    let opening = seq![
        Step::Check(!token.transfer_lock, Halt::Trap(Trap::TransferReentrant)),
        Step::Ask(
            Call::RequireAuth {
                addr: match spender {
                    Some(spender) => spender,
                    None => from,
                },
            },
        ),
    ];
    let limits = seq![
        Step::Check(recipients.len() > 0, Halt::Error(RwaError::EmptyBatch)),
        Step::Check(recipients.len() <= MAX_BATCH, Halt::Error(RwaError::BatchTooLarge)),
    ];
    let authorized = play(opening, env).env;
    assert(play(plan_steps(token, from, recipients), authorized).halt is None);
    assert(play(limits, authorized).env == authorized);
    let here = at_holder_cap(token, env, spender, from, recipients);
    assert(play(totals_steps(token, from, recipients), here).halt is None);
    assert(here.inbox.drop_first()[0] == here.inbox[1]);
    assert(holders(token).contains(from));
    assert(holders(token).len() > 0) by {
        assert(holders(token).remove(from).len() == holders(token).len() - 1);
    }
}

} // verus!
