//! What holds of the token at all times: at deployment, and after every
//! operation.

use vstd::prelude::*;

use crate::admin::accept_admin_steps;
use crate::host::{play, EnvView};
use crate::metadata::deployed;
use crate::operation::{after_all, Operation};
use crate::protocol::lemma_success_holds_checks;
use crate::recovery::{
    approve_recovery_steps, configure_recovery_steps, propose_recovery_steps, reachable,
    recovery_approved, recovery_configured, recovery_proposed, MAX_GUARDIANS,
};
use crate::solvency::{operations_keep_solvency, solvent};
use crate::token::TokenView;
use crate::types::{Address, ComplianceMetadata};
use crate::versioning::{migrate_schema_steps, migrate_steps, migrated, schema_migrated};

verus! {

broadcast use crate::host::group_play;

/// The invariant of recovery. Threshold, guardians and the mirrored threshold
/// are set together and fit each other. An active proposal comes from a
/// guardian, its approvals come from distinct other guardians, and there are
/// enough of these to reach the threshold.
pub open spec fn recovery_sound(token: TokenView) -> bool {
    match token.recovery_config {
        Some(config) => {
            &&& token.recovery_members is Some
            &&& token.recovery_threshold == Some(config.threshold)
            &&& 2 <= config.threshold <= token.recovery_members->0.len() <= MAX_GUARDIANS
            &&& token.active_recovery matches Some(proposal) ==> {
                let members = token.recovery_members->0;
                &&& members.contains(proposal.proposer)
                &&& config.threshold <= reachable(members, proposal.proposer)
                &&& proposal.approvals.no_duplicates()
                &&& forall|guardian: Address| #[trigger]
                    proposal.approvals.contains(guardian) ==> members.contains(guardian)
                        && guardian != proposal.proposer
            }
        },
        None => {
            &&& token.recovery_members is None
            &&& token.recovery_threshold is None
            &&& token.active_recovery is None
        },
    }
}

/// The invariant of the migration records: there is one for each migration,
/// each starts where the one before ended and ends elsewhere, and the last one
/// ended at the stored version.
pub open spec fn history_sound(token: TokenView) -> bool {
    &&& forall|i: u32| #[trigger] token.migrations.contains_key(i) <==> i < token.migration_count
    &&& forall|i: u32|
        i < token.migration_count ==> (#[trigger] token.migrations[i]).from_version@
            != token.migrations[i].to_version@
    &&& forall|i: u32, j: u32|
        j < token.migration_count && j == i + 1 ==> (#[trigger] token.migrations[i]).to_version@
            == (#[trigger] token.migrations[j]).from_version@
    &&& token.migration_count > 0 ==> token.migrations[(token.migration_count
        - 1) as u32].to_version@ == token.version@
}

/// The invariant of the schema migration records: there is one for each
/// migration, each raises the version by one, starting where the one before
/// ended, and the last one ended at the current version.
pub open spec fn schema_sound(token: TokenView) -> bool {
    &&& forall|i: u32| #[trigger]
        token.schema_migrations.contains_key(i) <==> i < token.schema_migration_count
    &&& forall|i: u32|
        i < token.schema_migration_count ==> (#[trigger] token.schema_migrations[i]).to_version
            == token.schema_migrations[i].from_version + 1
    &&& forall|i: u32, j: u32|
        j < token.schema_migration_count && j == i + 1 ==> (
        #[trigger] token.schema_migrations[i]).to_version == (
        #[trigger] token.schema_migrations[j]).from_version
    &&& token.schema_migration_count > 0 ==> token.schema_migrations[(token.schema_migration_count
        - 1) as u32].to_version == token.schema_version
}

/// The invariant of the token: there is an admin, balances and supply agree,
/// recovery and the migration records are consistent, no empty URI is stored,
/// and no transfer is under way.
pub open spec fn well_formed(token: TokenView) -> bool {
    &&& token.admin is Some
    &&& solvent(token)
    &&& recovery_sound(token)
    &&& history_sound(token)
    &&& schema_sound(token)
    &&& token.external_uri matches Some(uri) ==> uri@.len() > 0
    &&& !token.transfer_lock
}

/// A token as it is deployed satisfies the invariant.
pub proof fn deployment_is_well_formed(
    admin: Address,
    decimals: u32,
    name: String,
    symbol: String,
    asset_type: String,
    kyc_registry: Address,
    compliance_engine: Address,
    meta: Option<ComplianceMetadata>,
    max_supply: i128,
    version: String,
)
    requires
        max_supply >= 0,
    ensures
        well_formed(
            deployed(
                admin,
                decimals,
                name,
                symbol,
                asset_type,
                kyc_registry,
                compliance_engine,
                meta,
                max_supply,
                version,
            ),
        ),
{
}

proof fn lemma_migrate_keeps_history(
    token: TokenView,
    env: EnvView,
    new_version: String,
    description: String,
    nonce: u64,
)
    requires
        history_sound(token),
        play(migrate_steps(token, new_version, nonce), env).halt is None,
    ensures
        history_sound(migrated(token, new_version, description, env.timestamp)),
{
    let steps = migrate_steps(token, new_version, nonce);
    lemma_success_holds_checks(steps, env);
    assert(steps[4] is Check && steps[5] is Check);
}

proof fn lemma_migrate_schema_keeps_history(
    token: TokenView,
    env: EnvView,
    to_version: u32,
    description: String,
    nonce: u64,
)
    requires
        schema_sound(token),
        play(migrate_schema_steps(token, to_version, nonce), env).halt is None,
    ensures
        schema_sound(schema_migrated(token, to_version, description, env.timestamp)),
{
    let steps = migrate_schema_steps(token, to_version, nonce);
    lemma_success_holds_checks(steps, env);
    assert(steps[5] is Check && steps[6] is Check);
}

proof fn lemma_configure_keeps_recovery(
    token: TokenView,
    env: EnvView,
    threshold: u32,
    members: Seq<Address>,
    cooldown: u32,
)
    requires
        play(configure_recovery_steps(token, threshold, members), env).halt is None,
    ensures
        recovery_sound(recovery_configured(token, threshold, members, cooldown)),
{
    let steps = configure_recovery_steps(token, threshold, members);
    lemma_success_holds_checks(steps, env);
    assert(steps[2] is Check);
}

proof fn lemma_propose_keeps_recovery(
    token: TokenView,
    env: EnvView,
    caller: Address,
    proposed_admin: Address,
)
    requires
        recovery_sound(token),
        play(
            propose_recovery_steps(token, caller, proposed_admin, env.sequence),
            env,
        ).halt is None,
    ensures
        recovery_sound(recovery_proposed(token, caller, proposed_admin, env.sequence)),
{
    let steps = propose_recovery_steps(token, caller, proposed_admin, env.sequence);
    lemma_success_holds_checks(steps, env);
    assert(steps[1] is Check && steps[3] is Check && steps[4] is Check);
}

proof fn lemma_approve_keeps_recovery(token: TokenView, env: EnvView, caller: Address)
    requires
        recovery_sound(token),
        play(approve_recovery_steps(token, caller, env.sequence), env).halt is None,
    ensures
        recovery_sound(recovery_approved(token, caller)),
{
    let steps = approve_recovery_steps(token, caller, env.sequence);
    lemma_success_holds_checks(steps, env);
    assert(steps[2] is Check && steps[3] is Check && steps[5] is Check && steps[6] is Check);
    assert(token.active_recovery is Some);
    let before = token.active_recovery->0.approvals;
    let after = recovery_approved(token, caller).active_recovery->0.approvals;
    assert(after == before.push(caller));
    assert forall|guardian: Address| #[trigger] after.contains(guardian) implies before.contains(
        guardian,
    ) || guardian == caller by {
        let i = choose|i: int| 0 <= i < after.len() && after[i] == guardian;
        if i < before.len() {
            assert(before[i] == guardian);
        }
    }
}

proof fn lemma_accept_keeps_admin(token: TokenView, env: EnvView)
    requires
        play(accept_admin_steps(token), env).halt is None,
    ensures
        token.pending_admin is Some,
{
    reveal_with_fuel(play, 2);
}

/// Every operation that goes through keeps the invariant.
#[verifier::rlimit(30)]
pub proof fn operations_keep_the_invariant(operation: Operation, token: TokenView, env: EnvView)
    requires
        well_formed(token),
        play(operation.steps(token, env), env).halt is None,
    ensures
        well_formed(operation.outcome(token, env)),
{
    operations_keep_solvency(operation, token, env);
    match operation {
        Operation::AcceptAdmin => {
            lemma_accept_keeps_admin(token, env);
        },
        Operation::Migrate { new_version, description, nonce } => {
            lemma_migrate_keeps_history(token, env, new_version, description, nonce);
        },
        Operation::MigrateSchema { to_version, description, nonce } => {
            lemma_migrate_schema_keeps_history(token, env, to_version, description, nonce);
        },
        Operation::ConfigureRecovery { threshold, members, cooldown } => {
            lemma_configure_keeps_recovery(token, env, threshold, members@, cooldown);
        },
        Operation::ProposeRecovery { caller, proposed_admin } => {
            lemma_propose_keeps_recovery(token, env, caller, proposed_admin);
        },
        Operation::ApproveRecovery { caller } => {
            lemma_approve_keeps_recovery(token, env, caller);
        },
        _ => {},
    }
}

/// The invariant holds at all times: whatever operations are run, in whatever
/// surroundings, and whether they go through or not.
pub proof fn every_history_is_well_formed(token: TokenView, operations: Seq<(Operation, EnvView)>)
    requires
        well_formed(token),
    ensures
        well_formed(after_all(token, operations)),
    decreases operations.len(),
{
    if operations.len() > 0 {
        every_history_is_well_formed(token, operations.drop_last());
        let before = after_all(token, operations.drop_last());
        let (operation, env) = operations.last();
        if play(operation.steps(before, env), env).halt is None {
            operations_keep_the_invariant(operation, before, env);
        }
    }
}

} // verus!
