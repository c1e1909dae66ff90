//! A refused operation leaves no trace: it changes nothing and publishes
//! nothing.

use vstd::prelude::*;

use crate::admin::nonce_steps;
use crate::host::{play, take_step, Effect, Env, EnvView, Step};
use crate::operation::{single_leg, Operation};
use crate::token::{RwaToken, TokenView};
use crate::transfer::{events_steps, legs_steps, recipients_steps, transfer_steps};
use crate::types::{Address, Halt, RecipientEntry};

verus! {

/// Whether none of the steps publishes an event.
spec fn silent(steps: Seq<Step>) -> bool
    decreases steps.len(),
{
    if steps.len() == 0 {
        true
    } else {
        !(steps[0] is Emit) && silent(steps.drop_first())
    }
}

/// Whether all of the steps publish events.
spec fn loud(steps: Seq<Step>) -> bool
    decreases steps.len(),
{
    if steps.len() == 0 {
        true
    } else {
        steps[0] is Emit && loud(steps.drop_first())
    }
}

/// Whether events are published after all other steps.
spec fn emits_last(steps: Seq<Step>) -> bool
    decreases steps.len(),
{
    if steps.len() == 0 {
        true
    } else if steps[0] is Emit {
        loud(steps)
    } else {
        emits_last(steps.drop_first())
    }
}

broadcast proof fn lemma_silent_concat(a: Seq<Step>, b: Seq<Step>)
    ensures
        #[trigger] silent(a + b) == (silent(a) && silent(b)),
    decreases a.len(),
{
    if a.len() == 0 {
        assert(a + b =~= b);
    } else {
        assert((a + b).drop_first() =~= a.drop_first() + b);
        lemma_silent_concat(a.drop_first(), b);
    }
}

broadcast proof fn lemma_silent_push(steps: Seq<Step>, step: Step)
    ensures
        #[trigger] silent(steps.push(step)) == (silent(steps) && !(step is Emit)),
{
    reveal_with_fuel(silent, 2);
    assert(steps.push(step) =~= steps + seq![step]);
    lemma_silent_concat(steps, seq![step]);
    assert(seq![step].drop_first() =~= seq![]);
}

broadcast proof fn lemma_emits_concat(a: Seq<Step>, b: Seq<Step>)
    requires
        silent(a),
    ensures
        #[trigger] emits_last(a + b) == emits_last(b),
    decreases a.len(),
{
    if a.len() == 0 {
        assert(a + b =~= b);
    } else {
        assert((a + b).drop_first() =~= a.drop_first() + b);
        lemma_emits_concat(a.drop_first(), b);
    }
}

broadcast proof fn lemma_emits_push(steps: Seq<Step>, step: Step)
    requires
        silent(steps),
    ensures
        #[trigger] emits_last(steps.push(step)),
{
    reveal_with_fuel(emits_last, 2);
    reveal_with_fuel(loud, 2);
    assert(steps.push(step) =~= steps + seq![step]);
    lemma_emits_concat(steps, seq![step]);
    assert(seq![step].drop_first() =~= seq![]);
}

broadcast group group_silence {
    lemma_silent_concat,
    lemma_silent_push,
    lemma_emits_concat,
    lemma_emits_push,
}

proof fn lemma_loud_passes(steps: Seq<Step>, env: EnvView)
    requires
        loud(steps),
    ensures
        play(steps, env).halt is None,
    decreases steps.len(),
{
    if steps.len() > 0 {
        lemma_loud_passes(steps.drop_first(), take_step(steps[0], env).env);
    }
}

/// Whether a log goes on from another one with calls alone.
pub open spec fn only_calls_since(start: Seq<Effect>, end: Seq<Effect>) -> bool {
    &&& start.len() <= end.len()
    &&& end.take(start.len() as int) == start
    &&& forall|k: int| start.len() <= k < end.len() ==> #[trigger] end[k] is Call
}

proof fn lemma_refusal_is_silent(steps: Seq<Step>, env: EnvView)
    requires
        emits_last(steps),
        play(steps, env).halt is Some,
    ensures
        only_calls_since(env.log, play(steps, env).env.log),
    decreases steps.len(),
{
    if steps[0] is Emit {
        lemma_loud_passes(steps, env);
    } else {
        let first = take_step(steps[0], env);
        assert(first.env.log.take(env.log.len() as int) =~= env.log);
        if first.halt is None {
            lemma_refusal_is_silent(steps.drop_first(), first.env);
            let end = play(steps, env).env.log;
            assert(end.take(env.log.len() as int) =~= first.env.log.take(env.log.len() as int));
            assert forall|k: int| env.log.len() <= k < end.len() implies #[trigger] end[k]
                is Call by {
                if k < first.env.log.len() {
                    assert(end.take(first.env.log.len() as int)[k] == end[k]);
                    assert(first.env.log[k] is Call);
                }
            }
        }
    }
}

#[verifier::rlimit(30)]
proof fn lemma_admin_emits_last(operation: Operation, token: TokenView, env: EnvView)
    requires
        operation is SetAdmin || operation is ProposeAdmin || operation is AcceptAdmin
            || operation is UpdateKycRegistry || operation is UpdateComplianceEngine || operation
            is AssignRole || operation is RevokeRole,
    ensures
        emits_last(operation.steps(token, env)),
{
    broadcast use group_silence;

    reveal_with_fuel(silent, 4);
    reveal_with_fuel(loud, 3);
    reveal_with_fuel(emits_last, 5);
    if operation is ProposeAdmin {
        let steps = operation.steps(token, env);
        let lead = steps.take(6);
        let tail = steps.skip(6);
        assert(lead =~= operation.entry_steps(token) + nonce_steps(token, operation.nonce()->0));
        assert(steps =~= lead + tail);
        assert(tail.drop_first().drop_first() =~= seq![] || tail.drop_first() =~= seq![]);
        assert(loud(tail));
    }
}

#[verifier::rlimit(30)]
proof fn lemma_record_emits_last(operation: Operation, token: TokenView, env: EnvView)
    requires
        operation is Freeze || operation is Unfreeze || operation is Approve || operation
            is SetComplianceMetadata || operation is SetExternalUri || operation is Migrate
            || operation is MigrateSchema,
    ensures
        emits_last(operation.steps(token, env)),
{
    broadcast use group_silence;

    reveal_with_fuel(silent, 4);
    reveal_with_fuel(loud, 3);
    reveal_with_fuel(emits_last, 5);
}

#[verifier::rlimit(30)]
proof fn lemma_recovery_emits_last(operation: Operation, token: TokenView, env: EnvView)
    requires
        operation is ConfigureRecovery || operation is ProposeRecovery || operation
            is ApproveRecovery || operation is ExecuteRecovery || operation is CancelRecovery,
    ensures
        emits_last(operation.steps(token, env)),
{
    broadcast use group_silence;

    reveal_with_fuel(silent, 4);
    reveal_with_fuel(loud, 3);
    reveal_with_fuel(emits_last, 7);
}

#[verifier::rlimit(30)]
proof fn lemma_supply_emits_last(operation: Operation, token: TokenView, env: EnvView)
    requires
        operation is Mint || operation is Burn || operation is BurnFrom,
    ensures
        emits_last(operation.steps(token, env)),
{
    broadcast use group_silence;

    reveal_with_fuel(silent, 5);
    reveal_with_fuel(loud, 3);
    reveal_with_fuel(emits_last, 5);
}

proof fn lemma_recipients_silent(
    token: TokenView,
    from: Address,
    recipients: Seq<RecipientEntry>,
    i: int,
)
    ensures
        silent(recipients_steps(token, from, recipients, i)),
    decreases recipients.len() - i,
{
    broadcast use group_silence;

    reveal_with_fuel(silent, 5);
    if i < recipients.len() {
        lemma_recipients_silent(token, from, recipients, i + 1);
    }
}

proof fn lemma_legs_silent(
    balances: Map<Address, i128>,
    engine: Address,
    from: Address,
    recipients: Seq<RecipientEntry>,
    i: int,
)
    ensures
        silent(legs_steps(balances, engine, from, recipients, i)),
    decreases recipients.len() - i,
{
    broadcast use group_silence;

    reveal_with_fuel(silent, 3);
    if i < recipients.len() {
        lemma_legs_silent(balances, engine, from, recipients, i + 1);
    }
}

proof fn lemma_events_loud(
    from: Address,
    recipients: Seq<RecipientEntry>,
    timestamp: u64,
    i: int,
)
    ensures
        loud(events_steps(from, recipients, timestamp, i)),
        emits_last(events_steps(from, recipients, timestamp, i)),
    decreases recipients.len() - i,
{
    if i < recipients.len() {
        let rest = events_steps(from, recipients, timestamp, i + 1);
        lemma_events_loud(from, recipients, timestamp, i + 1);
        assert(events_steps(from, recipients, timestamp, i).drop_first() =~= rest);
    }
}

#[verifier::rlimit(30)]
proof fn lemma_transfer_emits_last(
    token: TokenView,
    env: EnvView,
    spender: Option<Address>,
    from: Address,
    recipients: Seq<RecipientEntry>,
)
    ensures
        emits_last(transfer_steps(token, env, spender, from, recipients)),
{
    broadcast use group_silence;

    reveal_with_fuel(silent, 3);
    lemma_recipients_silent(token, from, recipients, 0);
    lemma_legs_silent(token.balances, token.compliance_engine, from, recipients, 0);
    lemma_events_loud(from, recipients, env.timestamp, 0);
}

/// An operation that is refused, or that waits for an answer, has published
/// nothing: all that it adds to the log are the calls that it made.
pub proof fn refusals_publish_nothing(operation: Operation, token: TokenView, env: EnvView)
    requires
        play(operation.steps(token, env), env).halt is Some,
    ensures
        only_calls_since(env.log, play(operation.steps(token, env), env).env.log),
{
    match operation {
        Operation::SetAdmin { .. }
        | Operation::ProposeAdmin { .. }
        | Operation::AcceptAdmin
        | Operation::UpdateKycRegistry { .. }
        | Operation::UpdateComplianceEngine { .. }
        | Operation::AssignRole { .. }
        | Operation::RevokeRole { .. } => {
            lemma_admin_emits_last(operation, token, env);
        },
        Operation::Freeze { .. }
        | Operation::Unfreeze { .. }
        | Operation::Approve { .. }
        | Operation::SetComplianceMetadata { .. }
        | Operation::SetExternalUri { .. }
        | Operation::Migrate { .. }
        | Operation::MigrateSchema { .. } => {
            lemma_record_emits_last(operation, token, env);
        },
        Operation::Mint { .. } | Operation::Burn { .. } | Operation::BurnFrom { .. } => {
            lemma_supply_emits_last(operation, token, env);
        },
        Operation::Transfer { from, to, amount } => {
            lemma_transfer_emits_last(token, env, None, from, single_leg(to, amount));
        },
        Operation::TransferFrom { spender, from, to, amount } => {
            lemma_transfer_emits_last(token, env, Some(spender), from, single_leg(to, amount));
        },
        Operation::BatchTransfer { from, recipients } => {
            lemma_transfer_emits_last(token, env, None, from, recipients@);
        },
        Operation::BatchTransferFrom { spender, from, recipients } => {
            lemma_transfer_emits_last(token, env, Some(spender), from, recipients@);
        },
        _ => {
            lemma_recovery_emits_last(operation, token, env);
        },
    }
    lemma_refusal_is_silent(operation.steps(token, env), env);
}

/// An operation succeeds exactly if none of its steps stops it, and fails with
/// the reason of the step that does. Where it fails the token is as it was, and
/// nothing was published.
pub proof fn refusals_change_nothing(
    token: &mut RwaToken,
    env: &mut Env,
    operation: Operation,
    result: Result<(), Halt>,
)
    requires
        call_ensures(RwaToken::apply, (token, env, &operation), result),
    ensures
        ({
            let run = play(operation.steps(old(token)@, old(env)@), old(env)@);
            &&& final(env)@ == run.env
            &&& result is Ok <==> run.halt is None
            &&& result matches Err(halt) ==> run.halt == Some(halt)
            &&& result is Err ==> final(token)@ == old(token)@ && only_calls_since(
                old(env).log@,
                final(env).log@,
            )
            &&& result is Ok ==> final(token)@ == operation.outcome(old(token)@, old(env)@)
        }),
{
    if result is Err {
        refusals_publish_nothing(operation, old(token)@, old(env)@);
    }
}

} // verus!
