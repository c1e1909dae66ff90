//! Laws of recovery by guardians.

use vstd::prelude::*;

use crate::host::{ask, play, Call, EnvView, Reply, Run, Step};
use crate::invariants::recovery_sound;
use crate::laws::access::other_nonces_are_refused;
use crate::laws::exact::execute_recovery_exactly;
use crate::operation::{after_all, Operation};
use crate::protocol::{lemma_success_holds_checks, success_passes_every_step};
use crate::recovery::{
    approve_recovery_steps, execute_recovery_steps, guardian_steps, live_proposal_steps,
    propose_recovery_steps, reachable,
};
use crate::token::TokenView;
use crate::types::{Address, Halt, RwaError};

verus! {

broadcast use crate::host::group_play;

/// What is checked before a recovery is executed.
proof fn lemma_execution_checked(token: TokenView, env: EnvView, caller: Address)
    requires
        play(execute_recovery_steps(token, caller, env.sequence), env).halt is None,
    ensures
        ask(env, Call::RequireAuth { addr: caller }).halt is None,
        token.recovery_config is Some,
        token.recovery_members is Some,
        token.recovery_members->0.contains(caller),
        token.active_recovery is Some,
        env.sequence <= token.active_recovery->0.expiry_ledger,
        token.active_recovery->0.approvals.len() >= token.recovery_config->0.threshold,
        env.sequence >= token.recovery_config->0.last_executed_ledger
            + token.recovery_config->0.cooldown_ledgers,
        token.admin is Some,
        token.admin_nonce < u64::MAX,
{
    let steps = execute_recovery_steps(token, caller, env.sequence);
    lemma_success_holds_checks(steps, env);
    success_passes_every_step(steps, env, 0);
    assert(steps[0] == Step::Ask(Call::RequireAuth { addr: caller }));
    assert(steps[1] is Check && steps[2] is Check && steps[3] is Check && steps[4] is Check);
    assert(steps[5] is Check && steps[6] is Check && steps[8] is Check && steps[9] is Check);
    assert(steps[10] is Check);
}

/// A recovery is executed only at a guardian's request, while its proposal is
/// live, and with the approval of at least two guardians, all different, none
/// of them the proposer, and as many as the threshold asks for. It puts the
/// proposed admin in office, closes the proposal and moves the nonce on.
pub proof fn recovery_needs_a_quorum(token: TokenView, env: EnvView, caller: Address)
    requires
        recovery_sound(token),
        play(execute_recovery_steps(token, caller, env.sequence), env).halt is None,
    ensures
        ({
            let config = token.recovery_config->0;
            let members = token.recovery_members->0;
            let proposal = token.active_recovery->0;
            let after = Operation::ExecuteRecovery { caller }.outcome(token, env);
            &&& members.contains(caller)
            &&& env.sequence <= proposal.expiry_ledger
            &&& 2 <= config.threshold <= proposal.approvals.to_set().len()
            &&& proposal.approvals.to_set().subset_of(members.to_set().remove(proposal.proposer))
            &&& after.admin == Some(proposal.proposed_admin)
            &&& after.active_recovery is None
            &&& after.admin_nonce == token.admin_nonce + 1
        }),
{
    lemma_execution_checked(token, env, caller);
    let members = token.recovery_members->0;
    let proposal = token.active_recovery->0;
    proposal.approvals.unique_seq_to_set();
    assert forall|guardian: Address| #[trigger]
        proposal.approvals.to_set().contains(guardian) implies members.to_set().remove(
        proposal.proposer,
    ).contains(guardian) by {
        assert(proposal.approvals.contains(guardian));
    }
}

/// An executed recovery voids the nonce-protected operations that were
/// prepared before: their nonce is refused.
pub proof fn recovery_voids_prepared_operations(
    token: TokenView,
    env: EnvView,
    caller: Address,
    prepared: Operation,
    later: EnvView,
)
    requires
        play(execute_recovery_steps(token, caller, env.sequence), env).halt is None,
        prepared.nonce() == Some(token.admin_nonce),
    ensures
        ({
            let after = Operation::ExecuteRecovery { caller }.outcome(token, env);
            &&& play(prepared.steps(after, later), later).halt is Some
            &&& play(prepared.entry_steps(after), later).halt is None ==> play(
                prepared.steps(after, later),
                later,
            ).halt == Some(Halt::Error(RwaError::InvalidNonce))
        }),
{
    lemma_execution_checked(token, env, caller);
    let after = Operation::ExecuteRecovery { caller }.outcome(token, env);
    other_nonces_are_refused(prepared, after, later);
}

/// Whether the ledger does not go back behind `sequence` in any of the runs.
pub open spec fn runs_after(operations: Seq<(Operation, EnvView)>, sequence: u32) -> bool {
    forall|i: int| 0 <= i < operations.len() ==> (#[trigger] operations[i]).1.sequence >= sequence
}

/// An execution stays on record.
proof fn lemma_execution_remembered(
    token: TokenView,
    operations: Seq<(Operation, EnvView)>,
    sequence: u32,
)
    requires
        token.recovery_config matches Some(config) && config.last_executed_ledger >= sequence,
        runs_after(operations, sequence),
    ensures
        after_all(token, operations).recovery_config matches Some(config)
            && config.last_executed_ledger >= sequence,
    decreases operations.len(),
{
    if operations.len() > 0 {
        let rest = operations.drop_last();
        assert(operations.last() == operations[operations.len() - 1]);
        assert forall|i: int| 0 <= i < rest.len() implies (#[trigger] rest[i]).1.sequence
            >= sequence by {
            assert(rest[i] == operations[i]);
        }
        lemma_execution_remembered(token, rest, sequence);
    }
}

/// Between two executed recoveries lies at least the cooldown, whatever
/// happens in between: a new proposal does not shorten it, nor does a new
/// configuration make the last execution forgotten.
pub proof fn recoveries_keep_their_distance(
    token: TokenView,
    env: EnvView,
    caller: Address,
    between: Seq<(Operation, EnvView)>,
    next_caller: Address,
    later: EnvView,
)
    requires
        play(execute_recovery_steps(token, caller, env.sequence), env).halt is None,
        runs_after(between, env.sequence),
        ({
            let now = after_all(
                Operation::ExecuteRecovery { caller }.outcome(token, env),
                between,
            );
            play(execute_recovery_steps(now, next_caller, later.sequence), later).halt is None
        }),
    ensures
        ({
            let now = after_all(
                Operation::ExecuteRecovery { caller }.outcome(token, env),
                between,
            );
            later.sequence >= env.sequence + now.recovery_config->0.cooldown_ledgers
        }),
{
    let first = Operation::ExecuteRecovery { caller }.outcome(token, env);
    lemma_execution_remembered(first, between, env.sequence);
    lemma_execution_checked(after_all(first, between), later, next_caller);
}

/// A live proposal cannot be replaced: a guardian that could propose is told
/// that one is active.
#[verifier::rlimit(30)]
pub proof fn live_proposals_stand(
    token: TokenView,
    env: EnvView,
    caller: Address,
    proposed_admin: Address,
)
    requires
        token.active_recovery matches Some(proposal) && env.sequence <= proposal.expiry_ledger,
    ensures
        ({
            let run = play(
                propose_recovery_steps(token, caller, proposed_admin, env.sequence),
                env,
            );
            &&& run.halt is Some
            &&& recovery_sound(token) && ask(env, Call::RequireAuth { addr: caller }).halt is None
                && token.recovery_members->0.contains(caller) && token.recovery_config->0.threshold
                <= reachable(token.recovery_members->0, caller) ==> run.halt == Some(
                Halt::Error(RwaError::RecoveryAlreadyActive),
            )
        }),
{
    reveal_with_fuel(play, 4);
}

/// An expired proposal can neither be approved nor executed: guardians are
/// told that it expired.
#[verifier::rlimit(30)]
pub proof fn expired_proposals_are_dead(token: TokenView, env: EnvView, caller: Address)
    requires
        recovery_sound(token),
        token.active_recovery matches Some(proposal) && env.sequence > proposal.expiry_ledger,
    ensures
        ({
            let approve = play(approve_recovery_steps(token, caller, env.sequence), env);
            let execute = play(execute_recovery_steps(token, caller, env.sequence), env);
            let expired = Some(Halt::Error(RwaError::RecoveryExpired));
            &&& approve.halt is Some
            &&& execute.halt is Some
            &&& ask(env, Call::RequireAuth { addr: caller }).halt is None
                && token.recovery_members->0.contains(caller) ==> approve.halt == expired
                && execute.halt == expired
        }),
{
    reveal_with_fuel(play, 3);
}

/// Nobody approves a proposal twice, and its proposer not at all.
#[verifier::rlimit(30)]
pub proof fn approvals_count_once(token: TokenView, env: EnvView, caller: Address)
    requires
        recovery_sound(token),
        token.active_recovery matches Some(proposal) && env.sequence <= proposal.expiry_ledger,
        token.recovery_members->0.contains(caller),
        ask(env, Call::RequireAuth { addr: caller }).halt is None,
    ensures
        ({
            let proposal = token.active_recovery->0;
            let approve = Operation::ApproveRecovery { caller };
            let run = play(approve.steps(token, env), env);
            let after = approve.outcome(token, env).active_recovery->0;
            &&& caller == proposal.proposer ==> run.halt == Some(
                Halt::Error(RwaError::ProposerCannotApprove),
            )
            &&& proposal.approvals.contains(caller) ==> run.halt == Some(
                Halt::Error(RwaError::AlreadyApproved),
            )
            &&& after.approvals.contains(caller)
            &&& after.approvals.len() == proposal.approvals.len() + 1
        }),
{
    let proposal = token.active_recovery->0;
    assert(proposal.approvals.push(caller).last() == caller);
    let authorized = ask(env, Call::RequireAuth { addr: caller }).env;
    let auth = seq![Step::Ask(Call::RequireAuth { addr: caller })];
    let known = guardian_steps(token, caller);
    let live = live_proposal_steps(token, env.sequence);
    let rest = approve_recovery_steps(token, caller, env.sequence).skip(5);
    assert(approve_recovery_steps(token, caller, env.sequence) =~= auth + known + live + rest);
    assert(play(auth + known + live, env) == (Run { env: authorized, halt: None })) by {
        reveal_with_fuel(play, 3);
    }
    assert(rest[0] == Step::Check(
        caller != proposal.proposer,
        Halt::Error(RwaError::ProposerCannotApprove),
    ));
    assert(rest[1] == Step::Check(
        !proposal.approvals.contains(caller),
        Halt::Error(RwaError::AlreadyApproved),
    ));
    assert(rest.drop_first()[0] == rest[1]);
    reveal_with_fuel(play, 2);
}

/// A proposal that was cancelled, or made under an earlier configuration, is
/// gone: guardians are told that there is none.
#[verifier::rlimit(30)]
pub proof fn withdrawn_proposals_are_gone(
    token: TokenView,
    env: EnvView,
    withdrawal: Operation,
    caller: Address,
    later: EnvView,
)
    requires
        recovery_sound(token),
        withdrawal is CancelRecovery || withdrawal is ConfigureRecovery,
        play(withdrawal.steps(token, env), env).halt is None,
    ensures
        ({
            let after = withdrawal.outcome(token, env);
            let approve = play(approve_recovery_steps(after, caller, later.sequence), later);
            let execute = play(execute_recovery_steps(after, caller, later.sequence), later);
            let none = Some(Halt::Error(RwaError::NoActiveRecovery));
            &&& after.active_recovery is None
            &&& after.admin == token.admin
            &&& ask(later, Call::RequireAuth { addr: caller }).halt is None
                && after.recovery_config is Some && after.recovery_members->0.contains(caller)
                ==> approve.halt == none && execute.halt == none
        }),
{
    let after = withdrawal.outcome(token, env);
    assert(after.recovery_config is Some ==> after.recovery_members is Some);
    reveal_with_fuel(play, 3);
}

/// A proposal that is live and has the approvals it needs goes through once the
/// cooldown is over, whichever guardian executes it.
pub proof fn approved_proposals_go_through(token: TokenView, env: EnvView, caller: Address)
    requires
        token.admin is Some,
        token.admin_nonce < u64::MAX,
        token.recovery_config is Some,
        token.recovery_members is Some,
        token.recovery_members->0.contains(caller),
        token.active_recovery is Some,
        env.sequence <= token.active_recovery->0.expiry_ledger,
        token.recovery_config->0.threshold <= token.active_recovery->0.approvals.len(),
        token.recovery_config->0.last_executed_ledger + token.recovery_config->0.cooldown_ledgers
            <= env.sequence,
        env.inbox.len() > 0,
        env.inbox[0] == Reply::Done,
    ensures
        ({
            let execute = Operation::ExecuteRecovery { caller };
            let after = execute.outcome(token, env);
            &&& play(execute.steps(token, env), env).halt is None
            &&& after.admin == Some(token.active_recovery->0.proposed_admin)
            &&& after.active_recovery is None
        }),
{
    execute_recovery_exactly(token, env, caller);
}

/// Who among the guardians executes a recovery makes no difference, neither to
/// whether it goes through nor to what it does.
pub proof fn guardians_execute_alike(
    token: TokenView,
    env: EnvView,
    one: Address,
    another: Address,
)
    requires
        token.recovery_members is Some,
        token.recovery_members->0.contains(one),
        token.recovery_members->0.contains(another),
    ensures
        ({
            let first = Operation::ExecuteRecovery { caller: one };
            let second = Operation::ExecuteRecovery { caller: another };
            &&& play(first.steps(token, env), env).halt == play(second.steps(token, env), env).halt
            &&& first.outcome(token, env) == second.outcome(token, env)
        }),
{
    execute_recovery_exactly(token, env, one);
    execute_recovery_exactly(token, env, another);
}

} // verus!
