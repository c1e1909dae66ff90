//! Laws of authority: nonces, the admin handover, roles and frozen accounts.

use vstd::prelude::*;

use crate::admin::{accept_admin_steps, admin_steps, propose_admin_steps};
use crate::host::{ask, play, Call, Effect, EnvView, Step};
use crate::operation::{after_all, Operation};
use crate::protocol::{lemma_success_holds_checks, success_passes_every_step};
use crate::roles::{
    has_authority, role_steps, ROLE_COMPLIANCE, ROLE_GOVERNANCE, ROLE_LIQUIDITY, ROLE_REGISTRY,
};
use crate::token::TokenView;
use crate::types::{Address, Halt, RwaError};

verus! {

broadcast use crate::host::group_play;

/// Two errors with the same number are the same error.
pub proof fn error_codes_are_distinct(a: RwaError, b: RwaError)
    requires
        a.spec_code() == b.spec_code(),
    ensures
        a == b,
{
}

impl Operation {
    /// The admin nonce that a nonce-protected operation is given.
    pub open spec fn nonce(self) -> Option<u64> {
        match self {
            Operation::ProposeAdmin { nonce, .. } => Some(nonce),
            Operation::UpdateKycRegistry { nonce, .. } => Some(nonce),
            Operation::UpdateComplianceEngine { nonce, .. } => Some(nonce),
            Operation::AssignRole { nonce, .. } => Some(nonce),
            Operation::RevokeRole { nonce, .. } => Some(nonce),
            Operation::SetComplianceMetadata { nonce, .. } => Some(nonce),
            Operation::Migrate { nonce, .. } => Some(nonce),
            Operation::MigrateSchema { nonce, .. } => Some(nonce),
            _ => None,
        }
    }

    /// What a nonce-protected operation checks before its nonce.
    pub open spec fn entry_steps(self, token: TokenView) -> Seq<Step> {
        match self {
            Operation::ProposeAdmin { caller, new_admin, .. } => role_steps(
                token,
                caller,
                ROLE_GOVERNANCE@,
            ) + seq![
                Step::Check(
                    token.admin != Some(new_admin),
                    Halt::Error(RwaError::AlreadyAdmin),
                ),
            ],
            Operation::UpdateKycRegistry { caller, .. } => role_steps(
                token,
                caller,
                ROLE_REGISTRY@,
            ),
            Operation::UpdateComplianceEngine { caller, .. } => role_steps(
                token,
                caller,
                ROLE_REGISTRY@,
            ),
            Operation::SetComplianceMetadata { caller, .. } => role_steps(
                token,
                caller,
                ROLE_COMPLIANCE@,
            ),
            _ => admin_steps(token),
        }
    }
}

/// A nonce-protected operation that goes through was given the current nonce
/// and moves it on by one. No other operation touches the nonce, but for an
/// executed recovery, which moves it on by one as well.
pub proof fn nonce_moves_on_by_one(operation: Operation, token: TokenView, env: EnvView)
    requires
        play(operation.steps(token, env), env).halt is None,
    ensures
        match operation.nonce() {
            Some(nonce) => nonce == token.admin_nonce && operation.outcome(token, env).admin_nonce
                == nonce + 1,
            None => operation.outcome(token, env).admin_nonce == token.admin_nonce + (
            if operation is ExecuteRecovery {
                1int
            } else {
                0
            }),
        },
{
    lemma_nonce_checked(operation, token, env);
    if operation is ExecuteRecovery {
        lemma_recovery_nonce(operation, token, env);
    }
}

#[verifier::rlimit(30)]
proof fn lemma_nonce_checked(operation: Operation, token: TokenView, env: EnvView)
    ensures
        operation.nonce() matches Some(nonce) ==> {
            let entry = play(operation.entry_steps(token), env);
            let all = play(operation.steps(token, env), env);
            &&& entry.halt is Some ==> all == entry
            &&& entry.halt is None && nonce != token.admin_nonce ==> all.halt == Some(
                Halt::Error(RwaError::InvalidNonce),
            )
            &&& all.halt is None ==> nonce < u64::MAX
        },
{
    reveal_with_fuel(play, 3);
}

proof fn lemma_recovery_nonce(operation: Operation, token: TokenView, env: EnvView)
    requires
        operation is ExecuteRecovery,
        play(operation.steps(token, env), env).halt is None,
    ensures
        token.admin_nonce < u64::MAX,
{
    let steps = operation.steps(token, env);
    lemma_success_holds_checks(steps, env);
    assert(steps[10] is Check);
}

/// A nonce-protected operation with any other than the current nonce is
/// refused: with an invalid nonce if its caller has the authority for it, and
/// else for want of that.
pub proof fn other_nonces_are_refused(operation: Operation, token: TokenView, env: EnvView)
    requires
        operation.nonce() matches Some(nonce) && nonce != token.admin_nonce,
    ensures
        play(operation.steps(token, env), env).halt == (if play(
            operation.entry_steps(token),
            env,
        ).halt is Some {
            play(operation.entry_steps(token), env).halt
        } else {
            Some(Halt::Error(RwaError::InvalidNonce))
        }),
{
    lemma_nonce_checked(operation, token, env);
}

/// A nonce that was used once is never accepted again: neither for the same
/// operation nor for another, however many operations come in between.
pub proof fn used_nonce_is_spent(
    first: Operation,
    token: TokenView,
    env: EnvView,
    between: Seq<(Operation, EnvView)>,
    again: Operation,
    later: EnvView,
)
    requires
        first.nonce() is Some,
        again.nonce() == first.nonce(),
        play(first.steps(token, env), env).halt is None,
    ensures
        ({
            let now = after_all(first.outcome(token, env), between);
            play(again.steps(now, later), later).halt is Some
        }),
{
    nonce_moves_on_by_one(first, token, env);
    let next = first.outcome(token, env);
    lemma_nonce_never_falls(next, between);
    other_nonces_are_refused(again, after_all(next, between), later);
}

proof fn lemma_nonce_never_falls(token: TokenView, operations: Seq<(Operation, EnvView)>)
    ensures
        after_all(token, operations).admin_nonce >= token.admin_nonce,
    decreases operations.len(),
{
    if operations.len() > 0 {
        lemma_nonce_never_falls(token, operations.drop_last());
        let before = after_all(token, operations.drop_last());
        let (operation, env) = operations.last();
        if play(operation.steps(before, env), env).halt is None {
            nonce_moves_on_by_one(operation, before, env);
        }
    }
}

/// The admin is replaced only by the admin itself, by acceptance of a proposed
/// handover, or by an executed recovery.
pub proof fn admin_changes_in_three_ways(operation: Operation, token: TokenView, env: EnvView)
    requires
        operation.outcome(token, env).admin != token.admin,
    ensures
        operation is SetAdmin || operation is AcceptAdmin || operation is ExecuteRecovery,
{
}

/// The two-step handover: a proposal leaves the admin in office, the acceptance
/// of the proposed admin makes it the admin, and there is nothing left to
/// accept then. The nonce moves on once.
pub proof fn handover_takes_two_steps(
    token: TokenView,
    env: EnvView,
    caller: Address,
    new_admin: Address,
    nonce: u64,
    later: EnvView,
    last: EnvView,
)
    requires
        play(propose_admin_steps(token, caller, new_admin, nonce), env).halt is None,
    ensures
        ({
            let propose = Operation::ProposeAdmin { caller, new_admin, nonce };
            let proposed = propose.outcome(token, env);
            let accept = play(Operation::AcceptAdmin.steps(proposed, later), later);
            let accepted = Operation::AcceptAdmin.outcome(proposed, later);
            &&& token.admin is Some
            &&& token.admin != Some(new_admin)
            &&& proposed.admin == token.admin
            &&& proposed.pending_admin == Some(new_admin)
            &&& accept.halt == ask(later, Call::RequireAuth { addr: new_admin }).halt
            &&& accepted.admin == Some(new_admin)
            &&& accepted.pending_admin is None
            &&& accepted.admin_nonce == token.admin_nonce + 1
            &&& play(accept_admin_steps(accepted), last).halt == Some(
                Halt::Error(RwaError::NoPendingAdmin),
            )
        }),
{
    lemma_proposal_checked(token, env, caller, new_admin, nonce);
    let proposed = Operation::ProposeAdmin { caller, new_admin, nonce }.outcome(token, env);
    lemma_acceptance(proposed, later);
    lemma_acceptance(Operation::AcceptAdmin.outcome(proposed, later), last);
}

proof fn lemma_proposal_checked(
    token: TokenView,
    env: EnvView,
    caller: Address,
    new_admin: Address,
    nonce: u64,
)
    requires
        play(propose_admin_steps(token, caller, new_admin, nonce), env).halt is None,
    ensures
        token.admin is Some,
        token.admin != Some(new_admin),
        nonce == token.admin_nonce,
        nonce < u64::MAX,
{
    let steps = propose_admin_steps(token, caller, new_admin, nonce);
    lemma_success_holds_checks(steps, env);
    assert(steps[1] is Check && steps[3] is Check && steps[4] is Check && steps[5] is Check);
}

#[verifier::rlimit(30)]
proof fn lemma_acceptance(token: TokenView, env: EnvView)
    ensures
        token.pending_admin is None ==> play(accept_admin_steps(token), env).halt == Some(
            Halt::Error(RwaError::NoPendingAdmin),
        ),
        token.pending_admin is Some && token.admin is Some ==> play(
            accept_admin_steps(token),
            env,
        ).halt == ask(env, Call::RequireAuth { addr: token.pending_admin->0 }).halt,
{
    reveal_with_fuel(play, 5);
}

/// Operations that are reserved for the admin go through only with the admin's
/// authorization.
pub proof fn admin_operations_need_the_admin(operation: Operation, token: TokenView, env: EnvView)
    requires
        operation is SetAdmin || operation is AssignRole || operation is RevokeRole
            || operation is SetExternalUri || operation is Migrate || operation is MigrateSchema
            || operation is ConfigureRecovery || operation is CancelRecovery,
        play(operation.steps(token, env), env).halt is None,
    ensures
        token.admin is Some,
        ask(env, Call::RequireAuth { addr: token.admin->0 }).halt is None,
        play(operation.steps(token, env), env).env.log.contains(
            Effect::Call(Call::RequireAuth { addr: token.admin->0 }),
        ),
{
    let steps = operation.steps(token, env);
    assert(steps.len() >= 2);
    assert(steps[0] == admin_steps(token)[0]);
    assert(steps[1] == admin_steps(token)[1]);
    success_passes_every_step(steps, env, 0);
    success_passes_every_step(steps, env, 1);
    reveal_with_fuel(play, 3);
    assert(steps.take(1).drop_first() =~= seq![]);
}

impl Operation {
    /// The role that an operation can be run with in place of the admin, and
    /// the caller that has to hold it.
    pub open spec fn delegated_to(self) -> Option<(Address, Seq<char>)> {
        match self {
            Operation::ProposeAdmin { caller, .. } => Some((caller, ROLE_GOVERNANCE@)),
            Operation::UpdateKycRegistry { caller, .. } => Some((caller, ROLE_REGISTRY@)),
            Operation::UpdateComplianceEngine { caller, .. } => Some((caller, ROLE_REGISTRY@)),
            Operation::Freeze { caller, .. } => Some((caller, ROLE_COMPLIANCE@)),
            Operation::Unfreeze { caller, .. } => Some((caller, ROLE_COMPLIANCE@)),
            Operation::SetComplianceMetadata { caller, .. } => Some((caller, ROLE_COMPLIANCE@)),
            Operation::Mint { caller, .. } => Some((caller, ROLE_LIQUIDITY@)),
            _ => None,
        }
    }
}

/// Operations with a role go through only if their caller authorized them and
/// is the admin or holds the role. A caller that is neither is refused as
/// unauthorized for the role.
#[verifier::rlimit(30)]
pub proof fn delegated_operations_need_the_role(
    operation: Operation,
    token: TokenView,
    env: EnvView,
)
    requires
        operation.delegated_to() is Some,
    ensures
        ({
            let (caller, role) = operation.delegated_to()->0;
            let auth = ask(env, Call::RequireAuth { addr: caller });
            let run = play(operation.steps(token, env), env);
            &&& run.halt is None ==> auth.halt is None && has_authority(token, caller, role)
            &&& auth.halt is None && token.admin is Some && !has_authority(token, caller, role)
                ==> run.halt == Some(Halt::Error(RwaError::UnauthorizedRole))
        }),
{
    let (caller, role) = operation.delegated_to()->0;
    lemma_starts_with_role(operation, token, env);
    let rest = operation.steps(token, env).skip(3);
    assert(operation.steps(token, env) =~= role_steps(token, caller, role) + rest);
    reveal_with_fuel(play, 4);
}

proof fn lemma_starts_with_role(operation: Operation, token: TokenView, env: EnvView)
    requires
        operation.delegated_to() is Some,
    ensures
        ({
            let (caller, role) = operation.delegated_to()->0;
            let steps = operation.steps(token, env);
            let lead = role_steps(token, caller, role);
            steps.len() >= 3 && steps[0] == lead[0] && steps[1] == lead[1] && steps[2] == lead[2]
        }),
{
}

/// An assigned role gives its holder authority, for this role alone, and
/// revoking it takes the authority away again. The admin keeps its authority.
pub proof fn roles_are_given_and_taken(
    token: TokenView,
    env: EnvView,
    role: String,
    holder: Address,
    nonce: u64,
    later: EnvView,
    later_nonce: u64,
    other: Seq<char>,
    anyone: Address,
)
    ensures
        ({
            let assigned = Operation::AssignRole { role, holder, nonce }.outcome(token, env);
            let revoked = Operation::RevokeRole { role, nonce: later_nonce }.outcome(
                assigned,
                later,
            );
            &&& has_authority(assigned, anyone, role@) == (anyone == holder || token.admin == Some(
                anyone,
            ))
            &&& has_authority(revoked, anyone, role@) == (token.admin == Some(anyone))
            &&& other != role@ ==> has_authority(assigned, anyone, other) == has_authority(
                token,
                anyone,
                other,
            )
            &&& other != role@ ==> has_authority(revoked, anyone, other) == has_authority(
                token,
                anyone,
                other,
            )
        }),
{
}

/// Freezing freezes one account and no other, and unfreezing undoes it.
pub proof fn freezing_can_be_undone(
    token: TokenView,
    env: EnvView,
    caller: Address,
    addr: Address,
    later: EnvView,
    anyone: Address,
)
    ensures
        ({
            let frozen = Operation::Freeze { caller, addr }.outcome(token, env);
            let thawed = Operation::Unfreeze { caller, addr }.outcome(frozen, later);
            &&& frozen.frozen_at(anyone) == (anyone == addr || token.frozen_at(anyone))
            &&& thawed.frozen_at(anyone) == (anyone != addr && token.frozen_at(anyone))
            &&& frozen.balances == token.balances
            &&& thawed.balances == token.balances
        }),
{
}

} // verus!
