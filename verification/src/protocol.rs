//! How an operation that waits for answers is carried on, and what it means
//! that it went through.

use vstd::prelude::*;

use crate::host::{lemma_play_frame, play, take_step, Effect, EnvView, Reply, Step};
use crate::operation::{single_leg, Operation};
use crate::token::TokenView;
use crate::transfer::{events_steps, legs_steps, recipients_steps, transfer_steps};
use crate::types::{Address, Halt, RecipientEntry};

verus! {

broadcast use crate::host::group_play;

/// The surroundings with more answers at the end of the inbox.
pub open spec fn with_more(env: EnvView, more: Seq<Reply>) -> EnvView {
    EnvView { inbox: env.inbox + more, ..env }
}

/// Whether a run stopped for want of an answer.
pub open spec fn pending(halt: Option<Halt>) -> bool {
    halt == Some(Halt::Pending)
}

/// Whether steps stop with [`Halt::Pending`] only for want of an answer.
pub open spec fn checks_conclude(steps: Seq<Step>) -> bool {
    forall|i: int|
        0 <= i < steps.len() ==> ((#[trigger] steps[i]) matches Step::Check(_, halt)
            ==> halt != Halt::Pending)
}

proof fn lemma_step_resume(step: Step, env: EnvView, more: Seq<Reply>)
    requires
        step matches Step::Check(_, halt) ==> halt != Halt::Pending,
    ensures
        ({
            let first = take_step(step, env);
            let again = take_step(step, with_more(env, more));
            if pending(first.halt) {
                &&& first.env.inbox.len() == 0
                &&& first.env.log.is_prefix_of(again.env.log)
            } else {
                again.halt == first.halt && again.env == with_more(first.env, more)
            }
        }),
{
    let longer = with_more(env, more);
    if env.inbox.len() > 0 {
        assert(longer.inbox[0] == env.inbox[0]);
        assert(longer.inbox.drop_first() =~= env.inbox.drop_first() + more);
        if env.inbox.len() > 1 {
            let one = env.inbox.drop_first();
            assert((one + more)[0] == one[0]);
            assert((one + more).drop_first() =~= one.drop_first() + more);
        }
    }
}

/// An operation that waits can be run again with more answers: it repeats what
/// it did and goes on from there. One that has ended, ends in the same way
/// whatever answers are added.
pub proof fn rerun_carries_on(steps: Seq<Step>, env: EnvView, more: Seq<Reply>)
    requires
        checks_conclude(steps),
    ensures
        ({
            let first = play(steps, env);
            let again = play(steps, with_more(env, more));
            if pending(first.halt) {
                first.env.log.is_prefix_of(again.env.log)
            } else {
                again.halt == first.halt && again.env == with_more(first.env, more)
            }
        }),
    decreases steps.len(),
{
    if steps.len() > 0 {
        let step = steps[0];
        lemma_step_resume(step, env, more);
        let first = take_step(step, env);
        let again = take_step(step, with_more(env, more));
        let rest = steps.drop_first();
        assert forall|i: int| 0 <= i < rest.len() implies ((#[trigger] rest[i]) matches Step::Check(
            _,
            halt,
        ) ==> halt != Halt::Pending) by {
            assert(rest[i] == steps[i + 1]);
        }
        if first.halt is None {
            rerun_carries_on(rest, first.env, more);
        } else if pending(first.halt) && again.halt is None {
            lemma_play_frame(rest, again.env);
            let end = play(steps, with_more(env, more)).env;
            assert(first.env.log.is_prefix_of(end.log)) by {
                assert(first.env.log =~= end.log.subrange(0, first.env.log.len() as int));
            }
        }
    }
}

/// An operation that waits has used all answers, and the last entry of its log
/// is the call that it waits for.
pub proof fn waiting_names_the_call(steps: Seq<Step>, env: EnvView)
    requires
        checks_conclude(steps),
        pending(play(steps, env).halt),
    ensures
        play(steps, env).env.inbox.len() == 0,
        play(steps, env).env.log.len() > env.log.len(),
        play(steps, env).env.log.last() is Call,
    decreases steps.len(),
{
    let first = take_step(steps[0], env);
    let rest = steps.drop_first();
    assert forall|i: int| 0 <= i < rest.len() implies ((#[trigger] rest[i]) matches Step::Check(
        _,
        halt,
    ) ==> halt != Halt::Pending) by {
        assert(rest[i] == steps[i + 1]);
    }
    if first.halt is None {
        waiting_names_the_call(rest, first.env);
        lemma_play_frame(seq![steps[0]], env);
        assert(seq![steps[0]].drop_first() =~= seq![]);
        reveal_with_fuel(play, 2);
    }
}

/// An operation that goes through has passed each of its steps: every check
/// held, and every call was answered in its favour.
pub proof fn success_passes_every_step(steps: Seq<Step>, env: EnvView, i: int)
    requires
        play(steps, env).halt is None,
        0 <= i < steps.len(),
    ensures
        play(steps.take(i), env).halt is None,
        take_step(steps[i], play(steps.take(i), env).env).halt is None,
        steps[i] matches Step::Check(holds, _) ==> holds,
        steps[i] matches Step::Ask(call) ==> play(steps, env).env.log.contains(
            Effect::Call(call),
        ),
        steps[i] matches Step::Emit(event) ==> play(steps, env).env.log.contains(
            Effect::Event(event),
        ),
{
    let before = steps.take(i);
    let after = steps.skip(i + 1);
    assert(steps =~= before.push(steps[i]) + after);
    let here = play(before, env).env;
    let next = take_step(steps[i], here).env;
    lemma_play_frame(after, next);
    let end = play(steps, env).env;
    assert(end == play(after, next).env);
    if steps[i] is Ask || steps[i] is Emit {
        let last = here.log.len() as int;
        assert(next.log == end.log.subrange(0, next.log.len() as int));
        assert(end.log[last] == next.log[last]);
    }
}

/// Every check of an operation that goes through held.
pub proof fn lemma_success_holds_checks(steps: Seq<Step>, env: EnvView)
    requires
        play(steps, env).halt is None,
    ensures
        forall|i: int|
            0 <= i < steps.len() ==> ((#[trigger] steps[i]) matches Step::Check(holds, _)
                ==> holds),
{
    assert forall|i: int| 0 <= i < steps.len() implies ((#[trigger] steps[i]) matches Step::Check(
        holds,
        _,
    ) ==> holds) by {
        success_passes_every_step(steps, env, i);
    }
}

broadcast proof fn lemma_conclude_concat(a: Seq<Step>, b: Seq<Step>)
    requires
        checks_conclude(a),
        checks_conclude(b),
    ensures
        #[trigger] checks_conclude(a + b),
{
    assert forall|i: int| 0 <= i < (a + b).len() implies ((#[trigger] (a + b)[i]) matches Step::Check(
        _,
        halt,
    ) ==> halt != Halt::Pending) by {
        if i < a.len() {
            assert((a + b)[i] == a[i]);
        } else {
            assert((a + b)[i] == b[i - a.len()]);
        }
    }
}

broadcast proof fn lemma_conclude_push(steps: Seq<Step>, step: Step)
    requires
        checks_conclude(steps),
        step matches Step::Check(_, halt) ==> halt != Halt::Pending,
    ensures
        #[trigger] checks_conclude(steps.push(step)),
{
    assert forall|i: int| 0 <= i < steps.push(step).len() implies ((#[trigger] steps.push(
        step,
    )[i]) matches Step::Check(_, halt) ==> halt != Halt::Pending) by {
        if i < steps.len() {
            assert(steps.push(step)[i] == steps[i]);
        }
    }
}

proof fn lemma_recipients_conclude(
    token: TokenView,
    from: Address,
    recipients: Seq<RecipientEntry>,
    i: int,
)
    ensures
        checks_conclude(recipients_steps(token, from, recipients, i)),
    decreases recipients.len() - i,
{
    broadcast use {lemma_conclude_concat, lemma_conclude_push};

    if i < recipients.len() {
        lemma_recipients_conclude(token, from, recipients, i + 1);
    }
}

proof fn lemma_legs_conclude(
    balances: Map<Address, i128>,
    engine: Address,
    from: Address,
    recipients: Seq<RecipientEntry>,
    i: int,
)
    ensures
        checks_conclude(legs_steps(balances, engine, from, recipients, i)),
    decreases recipients.len() - i,
{
    broadcast use {lemma_conclude_concat, lemma_conclude_push};

    if i < recipients.len() {
        lemma_legs_conclude(balances, engine, from, recipients, i + 1);
    }
}

proof fn lemma_events_conclude(
    from: Address,
    recipients: Seq<RecipientEntry>,
    timestamp: u64,
    i: int,
)
    ensures
        checks_conclude(events_steps(from, recipients, timestamp, i)),
    decreases recipients.len() - i,
{
    broadcast use {lemma_conclude_concat, lemma_conclude_push};

    if i < recipients.len() {
        lemma_events_conclude(from, recipients, timestamp, i + 1);
    }
}

proof fn lemma_transfer_concludes(
    token: TokenView,
    env: EnvView,
    spender: Option<Address>,
    from: Address,
    recipients: Seq<RecipientEntry>,
)
    ensures
        checks_conclude(transfer_steps(token, env, spender, from, recipients)),
{
    broadcast use {lemma_conclude_concat, lemma_conclude_push};

    lemma_recipients_conclude(token, from, recipients, 0);
    lemma_legs_conclude(token.balances, token.compliance_engine, from, recipients, 0);
    lemma_events_conclude(from, recipients, env.timestamp, 0);
}

proof fn lemma_admin_concludes(operation: Operation, token: TokenView, env: EnvView)
    requires
        operation is SetAdmin
            || operation is ProposeAdmin
            || operation is AcceptAdmin
            || operation is UpdateKycRegistry
            || operation is UpdateComplianceEngine,
    ensures
        checks_conclude(operation.steps(token, env)),
{
    broadcast use {lemma_conclude_concat, lemma_conclude_push};

}

proof fn lemma_access_concludes(operation: Operation, token: TokenView, env: EnvView)
    requires
        operation is AssignRole
            || operation is RevokeRole
            || operation is Freeze
            || operation is Unfreeze
            || operation is Approve,
    ensures
        checks_conclude(operation.steps(token, env)),
{
    broadcast use {lemma_conclude_concat, lemma_conclude_push};

}

proof fn lemma_supply_concludes(operation: Operation, token: TokenView, env: EnvView)
    requires
        operation is Mint
            || operation is Burn
            || operation is BurnFrom,
    ensures
        checks_conclude(operation.steps(token, env)),
{
    broadcast use {lemma_conclude_concat, lemma_conclude_push};

}

proof fn lemma_record_concludes(operation: Operation, token: TokenView, env: EnvView)
    requires
        operation is SetComplianceMetadata
            || operation is SetExternalUri
            || operation is Migrate
            || operation is MigrateSchema,
    ensures
        checks_conclude(operation.steps(token, env)),
{
    broadcast use {lemma_conclude_concat, lemma_conclude_push};

}

proof fn lemma_recovery_concludes(operation: Operation, token: TokenView, env: EnvView)
    requires
        operation is ConfigureRecovery
            || operation is ProposeRecovery
            || operation is ApproveRecovery
            || operation is ExecuteRecovery
            || operation is CancelRecovery,
    ensures
        checks_conclude(operation.steps(token, env)),
{
    broadcast use {lemma_conclude_concat, lemma_conclude_push};

}

proof fn lemma_operations_conclude(operation: Operation, token: TokenView, env: EnvView)
    ensures
        checks_conclude(operation.steps(token, env)),
{
    match operation {
        Operation::Transfer { from, to, amount } => {
            lemma_transfer_concludes(token, env, None, from, single_leg(to, amount));
        },
        Operation::TransferFrom { spender, from, to, amount } => {
            lemma_transfer_concludes(token, env, Some(spender), from, single_leg(to, amount));
        },
        Operation::BatchTransfer { from, recipients } => {
            lemma_transfer_concludes(token, env, None, from, recipients@);
        },
        Operation::BatchTransferFrom { spender, from, recipients } => {
            lemma_transfer_concludes(token, env, Some(spender), from, recipients@);
        },
        Operation::SetAdmin { .. }
        | Operation::ProposeAdmin { .. }
        | Operation::AcceptAdmin
        | Operation::UpdateKycRegistry { .. }
        | Operation::UpdateComplianceEngine { .. } => {
            lemma_admin_concludes(operation, token, env);
        },
        Operation::AssignRole { .. }
        | Operation::RevokeRole { .. }
        | Operation::Freeze { .. }
        | Operation::Unfreeze { .. }
        | Operation::Approve { .. } => {
            lemma_access_concludes(operation, token, env);
        },
        Operation::Mint { .. } | Operation::Burn { .. } | Operation::BurnFrom { .. } => {
            lemma_supply_concludes(operation, token, env);
        },
        Operation::SetComplianceMetadata { .. }
        | Operation::SetExternalUri { .. }
        | Operation::Migrate { .. }
        | Operation::MigrateSchema { .. } => {
            lemma_record_concludes(operation, token, env);
        },
        _ => {
            lemma_recovery_concludes(operation, token, env);
        },
    }
}

/// Whoever runs an operation can do so call by call. While it waits, the last
/// entry of its log is the call to make, and all answers are used. Run again
/// with more answers, it repeats its log and goes on from there. Once it has
/// ended, further answers change neither its end nor its log.
pub proof fn operations_can_be_carried_on(
    operation: Operation,
    token: TokenView,
    env: EnvView,
    more: Seq<Reply>,
)
    ensures
        ({
            let first = play(operation.steps(token, env), env);
            let longer = with_more(env, more);
            let again = play(operation.steps(token, longer), longer);
            if pending(first.halt) {
                &&& first.env.inbox.len() == 0
                &&& first.env.log.last() is Call
                &&& first.env.log.len() > env.log.len()
                &&& first.env.log.is_prefix_of(again.env.log)
            } else {
                &&& again.halt == first.halt
                &&& again.env == with_more(first.env, more)
                &&& operation.outcome(token, longer) == operation.outcome(token, env)
            }
        }),
{
    let steps = operation.steps(token, env);
    assert(operation.steps(token, with_more(env, more)) == steps);
    lemma_operations_conclude(operation, token, env);
    rerun_carries_on(steps, env, more);
    if pending(play(steps, env).halt) {
        waiting_names_the_call(steps, env);
    }
}

} // verus!
