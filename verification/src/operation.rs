//! The operations that can change the token, as values.

use vstd::prelude::*;

use crate::admin::{
    accept_admin_steps, next_nonce, propose_admin_steps, set_admin_steps,
    update_compliance_engine_steps, update_kyc_registry_steps,
};
use crate::allowance::approve_steps;
use crate::compliance::{freeze_steps, unfreeze_steps};
use crate::host::{play, Env, EnvView, Step};
use crate::invariants::{operations_keep_the_invariant, well_formed};
use crate::metadata::{set_compliance_metadata_steps, set_external_uri_steps};
use crate::recovery::{
    approve_recovery_steps, cancel_recovery_steps, configure_recovery_steps,
    execute_recovery_steps, propose_recovery_steps, recovery_approved, recovery_configured,
    recovery_executed, recovery_proposed,
};
use crate::roles::{assign_role_steps, revoke_role_steps};
use crate::supply::{burn_steps, burned, mint_steps, minted};
use crate::token::{settles, RwaToken, TokenView};
use crate::transfer::{transfer_steps, transferred};
use crate::types::{copy_list, Address, AllowanceValue, Halt, RecipientEntry};
use crate::versioning::{migrate_schema_steps, migrate_steps, migrated, schema_migrated};

verus! {

/// An operation that can change the token, with its arguments.
#[derive(Clone, Debug, PartialEq, Eq)]
pub enum Operation {
    SetAdmin { new_admin: Address },
    ProposeAdmin { caller: Address, new_admin: Address, nonce: u64 },
    AcceptAdmin,
    UpdateKycRegistry { caller: Address, new_registry: Address, nonce: u64 },
    UpdateComplianceEngine { caller: Address, new_engine: Address, nonce: u64 },
    AssignRole { role: String, holder: Address, nonce: u64 },
    RevokeRole { role: String, nonce: u64 },
    Freeze { caller: Address, addr: Address },
    Unfreeze { caller: Address, addr: Address },
    Approve { from: Address, spender: Address, amount: i128, expiration_ledger: u32 },
    Transfer { from: Address, to: Address, amount: i128 },
    TransferFrom { spender: Address, from: Address, to: Address, amount: i128 },
    BatchTransfer { from: Address, recipients: Vec<RecipientEntry> },
    BatchTransferFrom { spender: Address, from: Address, recipients: Vec<RecipientEntry> },
    Mint { caller: Address, to: Address, amount: i128 },
    Burn { from: Address, amount: i128 },
    BurnFrom { spender: Address, from: Address, amount: i128 },
    SetComplianceMetadata { caller: Address, key: String, value: String, nonce: u64 },
    SetExternalUri { uri: String },
    Migrate { new_version: String, description: String, nonce: u64 },
    MigrateSchema { to_version: u32, description: String, nonce: u64 },
    ConfigureRecovery { threshold: u32, members: Vec<Address>, cooldown: u32 },
    ProposeRecovery { caller: Address, proposed_admin: Address },
    ApproveRecovery { caller: Address },
    ExecuteRecovery { caller: Address },
    CancelRecovery,
}

/// The one leg of a single transfer.
pub open spec fn single_leg(to: Address, amount: i128) -> Seq<RecipientEntry> {
    seq![RecipientEntry { to, amount }]
}

impl Operation {
    /// Whether the operation is a transfer, a mint or a burn.
    pub open spec fn moves_tokens(self) -> bool {
        ||| self is Transfer
        ||| self is TransferFrom
        ||| self is BatchTransfer
        ||| self is BatchTransferFrom
        ||| self is Mint
        ||| self is Burn
        ||| self is BurnFrom
    }

    /// The steps that the operation takes.
    pub open spec fn steps(self, token: TokenView, env: EnvView) -> Seq<Step> {
        match self {
            Operation::SetAdmin { new_admin } => set_admin_steps(token, new_admin),
            Operation::ProposeAdmin { caller, new_admin, nonce } => propose_admin_steps(
                token,
                caller,
                new_admin,
                nonce,
            ),
            Operation::AcceptAdmin => accept_admin_steps(token),
            Operation::UpdateKycRegistry {
                caller,
                new_registry,
                nonce,
            } => update_kyc_registry_steps(token, caller, new_registry, nonce),
            Operation::UpdateComplianceEngine {
                caller,
                new_engine,
                nonce,
            } => update_compliance_engine_steps(token, caller, new_engine, nonce),
            Operation::AssignRole { role, holder, nonce } => assign_role_steps(
                token,
                role,
                holder,
                nonce,
            ),
            Operation::RevokeRole { role, nonce } => revoke_role_steps(token, role, nonce),
            Operation::Freeze { caller, addr } => freeze_steps(token, caller, addr),
            Operation::Unfreeze { caller, addr } => unfreeze_steps(token, caller, addr),
            Operation::Approve { from, spender, amount, expiration_ledger } => approve_steps(
                from,
                spender,
                amount,
                expiration_ledger,
                env.sequence,
            ),
            Operation::Transfer { from, to, amount } => transfer_steps(
                token,
                env,
                None,
                from,
                single_leg(to, amount),
            ),
            Operation::TransferFrom { spender, from, to, amount } => transfer_steps(
                token,
                env,
                Some(spender),
                from,
                single_leg(to, amount),
            ),
            Operation::BatchTransfer { from, recipients } => transfer_steps(
                token,
                env,
                None,
                from,
                recipients@,
            ),
            Operation::BatchTransferFrom { spender, from, recipients } => transfer_steps(
                token,
                env,
                Some(spender),
                from,
                recipients@,
            ),
            Operation::Mint { caller, to, amount } => mint_steps(token, env, caller, to, amount),
            Operation::Burn { from, amount } => burn_steps(token, env, None, from, amount),
            Operation::BurnFrom { spender, from, amount } => burn_steps(
                token,
                env,
                Some(spender),
                from,
                amount,
            ),
            Operation::SetComplianceMetadata {
                caller,
                key,
                value,
                nonce,
            } => set_compliance_metadata_steps(token, caller, nonce),
            Operation::SetExternalUri { uri } => set_external_uri_steps(token, uri),
            Operation::Migrate { new_version, description, nonce } => migrate_steps(
                token,
                new_version,
                nonce,
            ),
            Operation::MigrateSchema { to_version, description, nonce } => migrate_schema_steps(
                token,
                to_version,
                nonce,
            ),
            Operation::ConfigureRecovery {
                threshold,
                members,
                cooldown,
            } => configure_recovery_steps(token, threshold, members@),
            Operation::ProposeRecovery { caller, proposed_admin } => propose_recovery_steps(
                token,
                caller,
                proposed_admin,
                env.sequence,
            ),
            Operation::ApproveRecovery { caller } => approve_recovery_steps(
                token,
                caller,
                env.sequence,
            ),
            Operation::ExecuteRecovery { caller } => execute_recovery_steps(
                token,
                caller,
                env.sequence,
            ),
            Operation::CancelRecovery => cancel_recovery_steps(token),
        }
    }

    /// The token once all steps were taken.
    pub open spec fn outcome(self, token: TokenView, env: EnvView) -> TokenView {
        match self {
            Operation::SetAdmin { new_admin } => TokenView { admin: Some(new_admin), ..token },
            Operation::ProposeAdmin { caller, new_admin, nonce } => TokenView {
                pending_admin: Some(new_admin),
                admin_nonce: next_nonce(token),
                ..token
            },
            Operation::AcceptAdmin => TokenView {
                admin: token.pending_admin,
                pending_admin: None,
                ..token
            },
            Operation::UpdateKycRegistry { caller, new_registry, nonce } => TokenView {
                kyc_registry: new_registry,
                admin_nonce: next_nonce(token),
                ..token
            },
            Operation::UpdateComplianceEngine { caller, new_engine, nonce } => TokenView {
                compliance_engine: new_engine,
                admin_nonce: next_nonce(token),
                ..token
            },
            Operation::AssignRole { role, holder, nonce } => TokenView {
                roles: token.roles.insert(role@, holder),
                admin_nonce: next_nonce(token),
                ..token
            },
            Operation::RevokeRole { role, nonce } => TokenView {
                roles: token.roles.remove(role@),
                admin_nonce: next_nonce(token),
                ..token
            },
            Operation::Freeze { caller, addr } => TokenView {
                frozen: token.frozen.insert(addr, true),
                ..token
            },
            Operation::Unfreeze { caller, addr } => TokenView {
                frozen: token.frozen.insert(addr, false),
                ..token
            },
            Operation::Approve { from, spender, amount, expiration_ledger } => TokenView {
                allowances: token.allowances.insert(
                    (from, spender),
                    AllowanceValue { amount, expiration_ledger },
                ),
                ..token
            },
            Operation::Transfer { from, to, amount } => transferred(
                token,
                env,
                None,
                from,
                single_leg(to, amount),
            ),
            Operation::TransferFrom { spender, from, to, amount } => transferred(
                token,
                env,
                Some(spender),
                from,
                single_leg(to, amount),
            ),
            Operation::BatchTransfer { from, recipients } => transferred(
                token,
                env,
                None,
                from,
                recipients@,
            ),
            Operation::BatchTransferFrom { spender, from, recipients } => transferred(
                token,
                env,
                Some(spender),
                from,
                recipients@,
            ),
            Operation::Mint { caller, to, amount } => minted(token, to, amount),
            Operation::Burn { from, amount } => burned(token, env, None, from, amount),
            Operation::BurnFrom { spender, from, amount } => burned(
                token,
                env,
                Some(spender),
                from,
                amount,
            ),
            Operation::SetComplianceMetadata { caller, key, value, nonce } => TokenView {
                compliance_meta: token.compliance_meta.insert(key@, value),
                admin_nonce: next_nonce(token),
                ..token
            },
            Operation::SetExternalUri { uri } => TokenView {
                external_uri: if uri@.len() == 0 {
                    None
                } else {
                    Some(uri)
                },
                ..token
            },
            Operation::Migrate { new_version, description, nonce } => migrated(
                token,
                new_version,
                description,
                env.timestamp,
            ),
            Operation::MigrateSchema { to_version, description, nonce } => schema_migrated(
                token,
                to_version,
                description,
                env.timestamp,
            ),
            Operation::ConfigureRecovery { threshold, members, cooldown } => recovery_configured(
                token,
                threshold,
                members@,
                cooldown,
            ),
            Operation::ProposeRecovery { caller, proposed_admin } => recovery_proposed(
                token,
                caller,
                proposed_admin,
                env.sequence,
            ),
            Operation::ApproveRecovery { caller } => recovery_approved(token, caller),
            Operation::ExecuteRecovery { caller } => recovery_executed(token, env.sequence),
            Operation::CancelRecovery => TokenView { active_recovery: None, ..token },
        }
    }
}

/// The token after operations were run in order, each in its surroundings. One
/// that does not go through changes nothing.
pub open spec fn after_all(token: TokenView, operations: Seq<(Operation, EnvView)>) -> TokenView
    decreases operations.len(),
{
    if operations.len() == 0 {
        token
    } else {
        let before = after_all(token, operations.drop_last());
        let (operation, env) = operations.last();
        if play(operation.steps(before, env), env).halt is Some {
            before
        } else {
            operation.outcome(before, env)
        }
    }
}

impl RwaToken {
    /// Runs an operation. It keeps the token's invariant.
    pub fn apply(&mut self, env: &mut Env, operation: &Operation) -> (result: Result<(), Halt>)
        ensures
            settles(
                old(self)@,
                final(self)@,
                old(env)@,
                final(env)@,
                result,
                operation.steps(old(self)@, old(env)@),
                operation.outcome(old(self)@, old(env)@),
            ),
            well_formed(old(self)@) ==> well_formed(final(self)@),
    {
        proof {
            if well_formed(self@) && play(operation.steps(self@, env@), env@).halt is None {
                operations_keep_the_invariant(*operation, self@, env@);
            }
        }
        match operation {
            Operation::SetAdmin { new_admin } => self.set_admin(env, *new_admin),
            Operation::ProposeAdmin { caller, new_admin, nonce } => self.propose_admin(
                env,
                *caller,
                *new_admin,
                *nonce,
            ),
            Operation::AcceptAdmin => self.accept_admin(env),
            Operation::UpdateKycRegistry {
                caller,
                new_registry,
                nonce,
            } => self.update_kyc_registry(env, *caller, *new_registry, *nonce),
            Operation::UpdateComplianceEngine {
                caller,
                new_engine,
                nonce,
            } => self.update_compliance_engine(env, *caller, *new_engine, *nonce),
            Operation::AssignRole { role, holder, nonce } => self.assign_role(
                env,
                role.clone(),
                *holder,
                *nonce,
            ),
            Operation::RevokeRole { role, nonce } => self.revoke_role(env, role.clone(), *nonce),
            Operation::Freeze { caller, addr } => self.freeze(env, *caller, *addr),
            Operation::Unfreeze { caller, addr } => self.unfreeze(env, *caller, *addr),
            Operation::Approve { from, spender, amount, expiration_ledger } => self.approve(
                env,
                *from,
                *spender,
                *amount,
                *expiration_ledger,
            ),
            Operation::Transfer { from, to, amount } => self.transfer(env, *from, *to, *amount),
            Operation::TransferFrom { spender, from, to, amount } => self.transfer_from(
                env,
                *spender,
                *from,
                *to,
                *amount,
            ),
            Operation::BatchTransfer { from, recipients } => self.batch_transfer(
                env,
                *from,
                copy_list(recipients),
            ),
            Operation::BatchTransferFrom {
                spender,
                from,
                recipients,
            } => self.batch_transfer_from(env, *spender, *from, copy_list(recipients)),
            Operation::Mint { caller, to, amount } => self.mint(env, *caller, *to, *amount),
            Operation::Burn { from, amount } => self.burn(env, *from, *amount),
            Operation::BurnFrom { spender, from, amount } => self.burn_from(
                env,
                *spender,
                *from,
                *amount,
            ),
            Operation::SetComplianceMetadata {
                caller,
                key,
                value,
                nonce,
            } => self.set_compliance_metadata(env, *caller, key.clone(), value.clone(), *nonce),
            Operation::SetExternalUri { uri } => self.set_external_uri(env, uri.clone()),
            Operation::Migrate { new_version, description, nonce } => self.migrate(
                env,
                new_version.clone(),
                description.clone(),
                *nonce,
            ),
            Operation::MigrateSchema { to_version, description, nonce } => self.migrate_schema(
                env,
                *to_version,
                description.clone(),
                *nonce,
            ),
            Operation::ConfigureRecovery {
                threshold,
                members,
                cooldown,
            } => self.configure_recovery(env, *threshold, copy_list(members), *cooldown),
            Operation::ProposeRecovery { caller, proposed_admin } => self.propose_recovery(
                env,
                *caller,
                *proposed_admin,
            ),
            Operation::ApproveRecovery { caller } => self.approve_recovery(env, *caller),
            Operation::ExecuteRecovery { caller } => self.execute_recovery(env, *caller),
            Operation::CancelRecovery => self.cancel_recovery(env),
        }
    }
}

} // verus!
