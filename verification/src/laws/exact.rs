//! What each operation that asks for one authorization does, case by case: for
//! which reason it is refused, what it leaves in the log and how it changes
//! the token.

use vstd::prelude::*;

use crate::events::Event;
use crate::host::{play, Call, Effect, EnvView, Run};
use crate::laws::verdicts::verdict;
use crate::operation::Operation;
use crate::token::TokenView;
use crate::types::{
    Address, AllowanceValue, Halt, MigrationRecord, ProposalView, RecoveryConfig, RwaError,
    SchemaVersionRecord, Trap,
};

verus! {

broadcast use crate::host::group_play;

/// The first of two reasons to stop.
pub open spec fn first_of(a: Option<Halt>, b: Option<Halt>) -> Option<Halt> {
    if a is Some {
        a
    } else {
        b
    }
}

/// A reason to stop unless a condition holds.
pub open spec fn unless(holds: bool, halt: Halt) -> Option<Halt> {
    if holds {
        None
    } else {
        Some(halt)
    }
}

/// Why an operation of the admin is refused at its door.
pub open spec fn admin_only(token: TokenView, env: EnvView) -> Option<Halt> {
    match token.admin {
        None => Some(Halt::Error(RwaError::NotInitialized)),
        Some(admin) => verdict(Call::RequireAuth { addr: admin }, env.inbox, 0),
    }
}

/// Why an operation of the admin or the holder of `role` is refused at its
/// door.
pub open spec fn role_only(
    token: TokenView,
    env: EnvView,
    caller: Address,
    role: Seq<char>,
) -> Option<Halt> {
    first_of(
        verdict(Call::RequireAuth { addr: caller }, env.inbox, 0),
        match token.admin {
            None => Some(Halt::Error(RwaError::NotInitialized)),
            Some(admin) => unless(
                caller == admin || (token.roles.contains_key(role) && caller == token.roles[role]),
                Halt::Error(RwaError::UnauthorizedRole),
            ),
        },
    )
}

/// Why a nonce is refused: it is not the current one, or it is the last there
/// is.
pub open spec fn fresh(token: TokenView, nonce: u64) -> Option<Halt> {
    first_of(
        unless(token.admin_nonce == nonce, Halt::Error(RwaError::InvalidNonce)),
        unless(token.admin_nonce != u64::MAX, Halt::Trap(Trap::ArithmeticOverflow)),
    )
}

/// Whether an operation that asks for one authorization of `signer` ended with
/// `halt` or, where that is none, went through and left `events`.
pub open spec fn ends(
    run: Run,
    env: EnvView,
    halt: Option<Halt>,
    signer: Address,
    events: Seq<Event>,
) -> bool {
    &&& run.halt == halt
    &&& halt is None ==> {
        &&& env.inbox.len() > 0
        &&& run.env.inbox =~= env.inbox.skip(1)
        &&& run.env.log =~= env.log + seq![Effect::Call(Call::RequireAuth { addr: signer })]
            + events.map_values(|e: Event| Effect::Event(e))
        &&& run.env.sequence == env.sequence
        &&& run.env.timestamp == env.timestamp
        &&& run.env.contract == env.contract
    }
}

/// The admin, and nobody else, replaces the admin. Nothing else changes: a
/// pending handover stays.
#[verifier::rlimit(30)]
pub proof fn set_admin_exactly(token: TokenView, env: EnvView, new_admin: Address)
    ensures
        ({
            let operation = Operation::SetAdmin { new_admin };
            let run = play(operation.steps(token, env), env);
            let after = operation.outcome(token, env);
            &&& ends(
                run,
                env,
                admin_only(token, env),
                token.admin->0,
                seq![Event::AdminSet { old_admin: token.admin->0, new_admin }],
            )
            &&& run.halt is None ==> after == (TokenView { admin: Some(new_admin), ..token })
        }),
{
    reveal_with_fuel(play, 4);
}

/// The admin or the holder of the governance role proposes anyone but the
/// admin, with the current nonce. An open proposal is replaced, which is
/// published first.
#[verifier::rlimit(30)]
pub proof fn propose_admin_exactly(
    token: TokenView,
    env: EnvView,
    caller: Address,
    new_admin: Address,
    nonce: u64,
)
    ensures
        ({
            let operation = Operation::ProposeAdmin { caller, new_admin, nonce };
            let run = play(operation.steps(token, env), env);
            let after = operation.outcome(token, env);
            &&& ends(
                run,
                env,
                first_of(
                    role_only(token, env, caller, "governance"@),
                    first_of(
                        unless(token.admin != Some(new_admin), Halt::Error(RwaError::AlreadyAdmin)),
                        fresh(token, nonce),
                    ),
                ),
                caller,
                (if token.pending_admin is Some {
                    seq![Event::PendingAdminCleared, Event::AdminProposed { new_admin, nonce }]
                } else {
                    seq![Event::AdminProposed { new_admin, nonce }]
                }),
            )
            &&& run.halt is None ==> after == (TokenView {
                pending_admin: Some(new_admin),
                admin_nonce: (token.admin_nonce + 1) as u64,
                ..token
            })
        }),
{
    reveal_with_fuel(play, 4);
}

/// The proposed admin accepts, and the handover is over then.
#[verifier::rlimit(30)]
pub proof fn accept_admin_exactly(token: TokenView, env: EnvView)
    ensures
        ({
            let operation = Operation::AcceptAdmin;
            let run = play(operation.steps(token, env), env);
            let after = operation.outcome(token, env);
            &&& ends(
                run,
                env,
                match token.pending_admin {
                    None => Some(Halt::Error(RwaError::NoPendingAdmin)),
                    Some(pending) => first_of(
                        verdict(Call::RequireAuth { addr: pending }, env.inbox, 0),
                        unless(token.admin is Some, Halt::Error(RwaError::NotInitialized)),
                    ),
                },
                token.pending_admin->0,
                seq![
                    Event::AdminAccepted {
                        old_admin: token.admin->0,
                        new_admin: token.pending_admin->0,
                        nonce: token.admin_nonce,
                    },
                ],
            )
            &&& run.halt is None ==> after == (TokenView {
                admin: token.pending_admin,
                pending_admin: None,
                ..token
            })
        }),
{
    reveal_with_fuel(play, 5);
}

/// The admin or the holder of the registry role replaces the KYC registry.
#[verifier::rlimit(30)]
pub proof fn update_kyc_registry_exactly(
    token: TokenView,
    env: EnvView,
    caller: Address,
    new_registry: Address,
    nonce: u64,
)
    ensures
        ({
            let operation = Operation::UpdateKycRegistry { caller, new_registry, nonce };
            let run = play(operation.steps(token, env), env);
            let after = operation.outcome(token, env);
            &&& ends(
                run,
                env,
                first_of(role_only(token, env, caller, "registry"@), fresh(token, nonce)),
                caller,
                seq![Event::KycUpdated { new_registry, nonce }],
            )
            &&& run.halt is None ==> after == (TokenView {
                kyc_registry: new_registry,
                admin_nonce: (token.admin_nonce + 1) as u64,
                ..token
            })
        }),
{
    reveal_with_fuel(play, 4);
}

/// The admin or the holder of the registry role replaces the compliance
/// engine.
#[verifier::rlimit(30)]
pub proof fn update_compliance_engine_exactly(
    token: TokenView,
    env: EnvView,
    caller: Address,
    new_engine: Address,
    nonce: u64,
)
    ensures
        ({
            let operation = Operation::UpdateComplianceEngine { caller, new_engine, nonce };
            let run = play(operation.steps(token, env), env);
            let after = operation.outcome(token, env);
            &&& ends(
                run,
                env,
                first_of(role_only(token, env, caller, "registry"@), fresh(token, nonce)),
                caller,
                seq![Event::CeUpdated { new_engine, nonce }],
            )
            &&& run.halt is None ==> after == (TokenView {
                compliance_engine: new_engine,
                admin_nonce: (token.admin_nonce + 1) as u64,
                ..token
            })
        }),
{
    reveal_with_fuel(play, 4);
}

/// The admin gives a role to one holder, whoever had it before. The other
/// roles stay as they are.
#[verifier::rlimit(30)]
pub proof fn assign_role_exactly(
    token: TokenView,
    env: EnvView,
    role: String,
    holder: Address,
    nonce: u64,
)
    ensures
        ({
            let operation = Operation::AssignRole { role, holder, nonce };
            let run = play(operation.steps(token, env), env);
            let after = operation.outcome(token, env);
            &&& ends(
                run,
                env,
                first_of(admin_only(token, env), fresh(token, nonce)),
                token.admin->0,
                seq![Event::RoleAssigned { role, holder, nonce }],
            )
            &&& run.halt is None ==> after == (TokenView {
                roles: token.roles.insert(role@, holder),
                admin_nonce: (token.admin_nonce + 1) as u64,
                ..token
            })
        }),
{
    reveal_with_fuel(play, 4);
}

/// The admin takes a role away, held or not. The other roles stay as they are.
#[verifier::rlimit(30)]
pub proof fn revoke_role_exactly(token: TokenView, env: EnvView, role: String, nonce: u64)
    ensures
        ({
            let operation = Operation::RevokeRole { role, nonce };
            let run = play(operation.steps(token, env), env);
            let after = operation.outcome(token, env);
            &&& ends(
                run,
                env,
                first_of(admin_only(token, env), fresh(token, nonce)),
                token.admin->0,
                seq![Event::RoleRevoked { role, nonce }],
            )
            &&& run.halt is None ==> after == (TokenView {
                roles: token.roles.remove(role@),
                admin_nonce: (token.admin_nonce + 1) as u64,
                ..token
            })
        }),
{
    reveal_with_fuel(play, 4);
}

/// The admin or the holder of the compliance role freezes any account, frozen
/// or not.
#[verifier::rlimit(30)]
pub proof fn freeze_exactly(token: TokenView, env: EnvView, caller: Address, addr: Address)
    ensures
        ({
            let operation = Operation::Freeze { caller, addr };
            let run = play(operation.steps(token, env), env);
            let after = operation.outcome(token, env);
            &&& ends(
                run,
                env,
                role_only(token, env, caller, "compliance"@),
                caller,
                seq![Event::Freeze { addr }],
            )
            &&& run.halt is None ==> after == (TokenView {
                frozen: token.frozen.insert(addr, true),
                ..token
            })
        }),
{
    reveal_with_fuel(play, 4);
}

/// The admin or the holder of the compliance role unfreezes any account,
/// frozen or not.
#[verifier::rlimit(30)]
pub proof fn unfreeze_exactly(token: TokenView, env: EnvView, caller: Address, addr: Address)
    ensures
        ({
            let operation = Operation::Unfreeze { caller, addr };
            let run = play(operation.steps(token, env), env);
            let after = operation.outcome(token, env);
            &&& ends(
                run,
                env,
                role_only(token, env, caller, "compliance"@),
                caller,
                seq![Event::Unfreeze { addr }],
            )
            &&& run.halt is None ==> after == (TokenView {
                frozen: token.frozen.insert(addr, false),
                ..token
            })
        }),
{
    reveal_with_fuel(play, 4);
}

/// An owner sets the allowance of a spender, whatever it was. A positive one
/// must not expire before the current ledger.
#[verifier::rlimit(30)]
pub proof fn approve_exactly(
    token: TokenView,
    env: EnvView,
    from: Address,
    spender: Address,
    amount: i128,
    expiration_ledger: u32,
)
    ensures
        ({
            let operation = Operation::Approve { from, spender, amount, expiration_ledger };
            let run = play(operation.steps(token, env), env);
            let after = operation.outcome(token, env);
            &&& ends(
                run,
                env,
                first_of(
                    verdict(Call::RequireAuth { addr: from }, env.inbox, 0),
                    unless(
                        !(amount > 0 && expiration_ledger < env.sequence),
                        Halt::Error(RwaError::AllowanceExpired),
                    ),
                ),
                from,
                seq![Event::Approve { from, spender, amount, expiration_ledger }],
            )
            &&& run.halt is None ==> after == (TokenView {
                allowances: token.allowances.insert(
                    (from, spender),
                    AllowanceValue { amount, expiration_ledger },
                ),
                ..token
            })
        }),
{
    reveal_with_fuel(play, 4);
}

/// The admin or the holder of the compliance role sets a metadata field. The
/// other fields stay, and nothing is published.
#[verifier::rlimit(30)]
pub proof fn set_compliance_metadata_exactly(
    token: TokenView,
    env: EnvView,
    caller: Address,
    key: String,
    value: String,
    nonce: u64,
)
    ensures
        ({
            let operation = Operation::SetComplianceMetadata { caller, key, value, nonce };
            let run = play(operation.steps(token, env), env);
            let after = operation.outcome(token, env);
            &&& ends(
                run,
                env,
                first_of(role_only(token, env, caller, "compliance"@), fresh(token, nonce)),
                caller,
                Seq::<Event>::empty(),
            )
            &&& run.halt is None ==> after == (TokenView {
                compliance_meta: token.compliance_meta.insert(key@, value),
                admin_nonce: (token.admin_nonce + 1) as u64,
                ..token
            })
        }),
{
    reveal_with_fuel(play, 4);
}

/// The admin sets the external URI; an empty one clears it.
#[verifier::rlimit(30)]
pub proof fn set_external_uri_exactly(token: TokenView, env: EnvView, uri: String)
    ensures
        ({
            let operation = Operation::SetExternalUri { uri };
            let run = play(operation.steps(token, env), env);
            let after = operation.outcome(token, env);
            &&& ends(
                run,
                env,
                admin_only(token, env),
                token.admin->0,
                (if uri@.len() == 0 {
                    seq![Event::ExternalUriCleared]
                } else {
                    seq![Event::ExternalUri { uri }]
                }),
            )
            &&& run.halt is None ==> after == (if uri@.len() == 0 {
                TokenView { external_uri: None, ..token }
            } else {
                TokenView { external_uri: Some(uri), ..token }
            })
        }),
{
    reveal_with_fuel(play, 4);
}

/// The admin records a migration to any version but the stored one. The record
/// is added behind the others.
#[verifier::rlimit(30)]
pub proof fn migrate_exactly(
    token: TokenView,
    env: EnvView,
    new_version: String,
    description: String,
    nonce: u64,
)
    ensures
        ({
            let operation = Operation::Migrate { new_version, description, nonce };
            let run = play(operation.steps(token, env), env);
            let after = operation.outcome(token, env);
            &&& ends(
                run,
                env,
                first_of(
                    admin_only(token, env),
                    first_of(
                        fresh(token, nonce),
                        first_of(
                            unless(
                                new_version@ != token.version@,
                                Halt::Error(RwaError::MigrationVersionConflict),
                            ),
                            unless(
                                token.migration_count != u32::MAX,
                                Halt::Trap(Trap::ArithmeticOverflow),
                            ),
                        ),
                    ),
                ),
                token.admin->0,
                seq![Event::Migrated { new_version, nonce }],
            )
            &&& run.halt is None ==> after == (TokenView {
                admin_nonce: (token.admin_nonce + 1) as u64,
                version: new_version,
                migration_count: (token.migration_count + 1) as u32,
                migrations: token.migrations.insert(
                    token.migration_count,
                    MigrationRecord {
                        from_version: token.version,
                        to_version: new_version,
                        timestamp: env.timestamp,
                        description,
                    },
                ),
                ..token
            })
        }),
{
    reveal_with_fuel(play, 4);
}

/// The admin records a schema migration, to the version after the current one
/// alone. The record is added behind the others.
#[verifier::rlimit(30)]
pub proof fn migrate_schema_exactly(
    token: TokenView,
    env: EnvView,
    to_version: u32,
    description: String,
    nonce: u64,
)
    ensures
        ({
            let operation = Operation::MigrateSchema { to_version, description, nonce };
            let run = play(operation.steps(token, env), env);
            let after = operation.outcome(token, env);
            &&& ends(
                run,
                env,
                first_of(
                    first_of(admin_only(token, env), fresh(token, nonce)),
                    first_of(
                        first_of(
                            unless(
                                to_version != token.schema_version,
                                Halt::Error(RwaError::MigrationVersionConflict),
                            ),
                            unless(
                                to_version == token.schema_version + 1,
                                Halt::Error(RwaError::MigrationVersionNotSequential),
                            ),
                        ),
                        unless(
                            token.schema_migration_count != u32::MAX,
                            Halt::Trap(Trap::ArithmeticOverflow),
                        ),
                    ),
                ),
                token.admin->0,
                seq![Event::SchemaMigrated { from_version: token.schema_version, to_version }],
            )
            &&& run.halt is None ==> after == (TokenView {
                admin_nonce: (token.admin_nonce + 1) as u64,
                schema_version: to_version,
                schema_migration_count: (token.schema_migration_count + 1) as u32,
                schema_migrations: token.schema_migrations.insert(
                    token.schema_migration_count,
                    SchemaVersionRecord {
                        from_version: token.schema_version,
                        to_version,
                        timestamp: env.timestamp,
                        description,
                    },
                ),
                ..token
            })
        }),
{
    reveal_with_fuel(play, 5);
}

/// The admin configures recovery with at least two approvals, no more of them
/// than guardians, and at most ten guardians. The last execution is kept, and
/// an open proposal is dropped.
#[verifier::rlimit(30)]
pub proof fn configure_recovery_exactly(
    token: TokenView,
    env: EnvView,
    threshold: u32,
    members: Vec<Address>,
    cooldown: u32,
)
    ensures
        ({
            let operation = Operation::ConfigureRecovery { threshold, members, cooldown };
            let run = play(operation.steps(token, env), env);
            let after = operation.outcome(token, env);
            &&& ends(
                run,
                env,
                first_of(
                    admin_only(token, env),
                    unless(
                        threshold >= 2 && threshold <= members@.len() && members@.len() <= 10,
                        Halt::Error(RwaError::InvalidRecoveryConfig),
                    ),
                ),
                token.admin->0,
                seq![
                    Event::RecoveryConfigured { threshold, member_count: members@.len() as u32 },
                ],
            )
            &&& run.halt is None ==> after == (TokenView {
                recovery_config: Some(
                    RecoveryConfig {
                        threshold,
                        cooldown_ledgers: cooldown,
                        last_executed_ledger: if token.recovery_config is Some {
                            token.recovery_config->0.last_executed_ledger
                        } else {
                            0
                        },
                    },
                ),
                recovery_members: Some(members@),
                recovery_threshold: Some(threshold),
                active_recovery: None,
                ..token
            })
        }),
{
    reveal_with_fuel(play, 4);
}

/// A guardian opens a proposal where enough others could approve it and no
/// proposal is live: one is up to and at its expiry ledger. It lives for half
/// the cooldown and starts without approvals.
#[verifier::rlimit(30)]
pub proof fn propose_recovery_exactly(
    token: TokenView,
    env: EnvView,
    caller: Address,
    proposed_admin: Address,
)
    ensures
        ({
            let operation = Operation::ProposeRecovery { caller, proposed_admin };
            let run = play(operation.steps(token, env), env);
            let after = operation.outcome(token, env);
            &&& ends(
                run,
                env,
                first_of(
                    verdict(Call::RequireAuth { addr: caller }, env.inbox, 0),
                    first_of(
                        first_of(
                            unless(
                                token.recovery_config is Some && token.recovery_members is Some,
                                Halt::Error(RwaError::RecoveryNotConfigured),
                            ),
                            unless(
                                token.recovery_members->0.contains(caller),
                                Halt::Error(RwaError::NotRecoveryMember),
                            ),
                        ),
                        first_of(
                            unless(
                                token.recovery_members->0.to_set().remove(caller).len()
                                    >= token.recovery_config->0.threshold,
                                Halt::Error(RwaError::InvalidRecoveryConfig),
                            ),
                            unless(
                                !(token.active_recovery is Some
                                    && token.active_recovery->0.expiry_ledger >= env.sequence),
                                Halt::Error(RwaError::RecoveryAlreadyActive),
                            ),
                        ),
                    ),
                ),
                caller,
                seq![
                    Event::RecoveryProposed {
                        proposed_admin,
                        expiry_ledger: (env.sequence + token.recovery_config->0.cooldown_ledgers
                            / 2) as u64,
                    },
                ],
            )
            &&& run.halt is None ==> after == (TokenView {
                active_recovery: Some(
                    ProposalView {
                        proposed_admin,
                        proposer: caller,
                        approvals: Seq::empty(),
                        expiry_ledger: (env.sequence + token.recovery_config->0.cooldown_ledgers
                            / 2) as u64,
                    },
                ),
                ..token
            })
        }),
{
    reveal_with_fuel(play, 4);
}

/// A guardian other than the proposer approves a live proposal once.
#[verifier::rlimit(30)]
pub proof fn approve_recovery_exactly(token: TokenView, env: EnvView, caller: Address)
    ensures
        ({
            let operation = Operation::ApproveRecovery { caller };
            let run = play(operation.steps(token, env), env);
            let after = operation.outcome(token, env);
            &&& ends(
                run,
                env,
                first_of(
                    first_of(
                        verdict(Call::RequireAuth { addr: caller }, env.inbox, 0),
                        first_of(
                            unless(
                                token.recovery_members is Some,
                                Halt::Error(RwaError::RecoveryNotConfigured),
                            ),
                            unless(
                                token.recovery_members->0.contains(caller),
                                Halt::Error(RwaError::NotRecoveryMember),
                            ),
                        ),
                    ),
                    match token.active_recovery {
                        None => Some(Halt::Error(RwaError::NoActiveRecovery)),
                        Some(proposal) => first_of(
                            first_of(
                                unless(
                                    proposal.expiry_ledger >= env.sequence,
                                    Halt::Error(RwaError::RecoveryExpired),
                                ),
                                unless(
                                    proposal.proposer != caller,
                                    Halt::Error(RwaError::ProposerCannotApprove),
                                ),
                            ),
                            first_of(
                                unless(
                                    !proposal.approvals.contains(caller),
                                    Halt::Error(RwaError::AlreadyApproved),
                                ),
                                unless(
                                    proposal.approvals.len() < u32::MAX,
                                    Halt::Trap(Trap::ArithmeticOverflow),
                                ),
                            ),
                        ),
                    },
                ),
                caller,
                seq![
                    Event::RecoveryApproved {
                        approver: caller,
                        approval_count: (token.active_recovery->0.approvals.len() + 1) as u32,
                    },
                ],
            )
            &&& run.halt is None ==> after == (TokenView {
                active_recovery: Some(
                    ProposalView {
                        approvals: token.active_recovery->0.approvals.push(caller),
                        ..token.active_recovery->0
                    },
                ),
                ..token
            })
        }),
{
    reveal_with_fuel(play, 5);
}

/// Any guardian executes a live proposal that has the approvals it needs, once
/// the cooldown since the last execution is over. The proposed admin takes
/// office, the nonce moves on, the proposal is gone and the execution is noted.
#[verifier::rlimit(60)]
pub proof fn execute_recovery_exactly(token: TokenView, env: EnvView, caller: Address)
    ensures
        ({
            let operation = Operation::ExecuteRecovery { caller };
            let run = play(operation.steps(token, env), env);
            let after = operation.outcome(token, env);
            &&& ends(
                run,
                env,
                first_of(
                    first_of(
                        verdict(Call::RequireAuth { addr: caller }, env.inbox, 0),
                        first_of(
                            unless(
                                token.recovery_config is Some && token.recovery_members is Some,
                                Halt::Error(RwaError::RecoveryNotConfigured),
                            ),
                            unless(
                                token.recovery_members->0.contains(caller),
                                Halt::Error(RwaError::NotRecoveryMember),
                            ),
                        ),
                    ),
                    match (token.active_recovery, token.recovery_config->0) {
                        (None, _) => Some(Halt::Error(RwaError::NoActiveRecovery)),
                        (Some(proposal), config) => first_of(
                            first_of(
                                unless(
                                    proposal.expiry_ledger >= env.sequence,
                                    Halt::Error(RwaError::RecoveryExpired),
                                ),
                                unless(
                                    proposal.approvals.len() >= config.threshold,
                                    Halt::Error(RwaError::InsufficientApprovals),
                                ),
                            ),
                            first_of(
                                if config.last_executed_ledger + config.cooldown_ledgers
                                    > u64::MAX {
                                    Some(Halt::Trap(Trap::ArithmeticOverflow))
                                } else {
                                    unless(
                                        env.sequence - config.last_executed_ledger
                                            >= config.cooldown_ledgers,
                                        Halt::Error(RwaError::RecoveryCooldown),
                                    )
                                },
                                first_of(
                                    unless(
                                        token.admin is Some,
                                        Halt::Error(RwaError::NotInitialized),
                                    ),
                                    unless(
                                        token.admin_nonce != u64::MAX,
                                        Halt::Trap(Trap::ArithmeticOverflow),
                                    ),
                                ),
                            ),
                        ),
                    },
                ),
                caller,
                seq![
                    Event::RecoveryExecuted {
                        old_admin: token.admin->0,
                        new_admin: token.active_recovery->0.proposed_admin,
                    },
                ],
            )
            &&& run.halt is None ==> after == (TokenView {
                admin: Some(token.active_recovery->0.proposed_admin),
                admin_nonce: (token.admin_nonce + 1) as u64,
                active_recovery: None,
                recovery_config: Some(
                    RecoveryConfig {
                        last_executed_ledger: env.sequence as u64,
                        ..token.recovery_config->0
                    },
                ),
                ..token
            })
        }),
{
    reveal_with_fuel(play, 7);
}

/// The admin calls an open proposal off, expired or not.
#[verifier::rlimit(30)]
pub proof fn cancel_recovery_exactly(token: TokenView, env: EnvView)
    ensures
        ({
            let operation = Operation::CancelRecovery;
            let run = play(operation.steps(token, env), env);
            let after = operation.outcome(token, env);
            &&& ends(
                run,
                env,
                first_of(
                    admin_only(token, env),
                    unless(
                        token.active_recovery is Some,
                        Halt::Error(RwaError::NoActiveRecovery),
                    ),
                ),
                token.admin->0,
                seq![Event::RecoveryCancelled],
            )
            &&& run.halt is None ==> after == (TokenView { active_recovery: None, ..token })
        }),
{
    reveal_with_fuel(play, 4);
}

} // verus!
