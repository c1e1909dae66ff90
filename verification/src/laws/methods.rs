//! Each method of the token carries out the operation of its name, with its
//! arguments as they are. What is proved of an operation holds of its method.

use vstd::prelude::*;

use crate::host::{play, Env};
use crate::operation::Operation;
use crate::token::RwaToken;
use crate::types::{Address, Halt, RecipientEntry};

verus! {

/// Whether an operation was carried out: it fails with the reason for which its
/// steps stop, if they do, and leaves the token as it was then; else it
/// succeeds and leaves the token as the operation says.
pub open spec fn carried_out(
    operation: Operation,
    before: RwaToken,
    after: RwaToken,
    start: Env,
    end: Env,
    result: Result<(), Halt>,
) -> bool {
    let run = play(operation.steps(before@, start@), start@);
    &&& end@ == run.env
    &&& match run.halt {
        Some(halt) => result == Err::<(), Halt>(halt) && after@ == before@,
        None => result is Ok && after@ == operation.outcome(before@, start@),
    }
}

/// [`RwaToken::set_admin`] carries out [`Operation::SetAdmin`].
pub proof fn set_admin_is_carried_out(
    token: &mut RwaToken,
    env: &mut Env,
    new_admin: Address,
    result: Result<(), Halt>,
)
    requires
        call_ensures(RwaToken::set_admin, (token, env, new_admin), result),
    ensures
        carried_out(
            Operation::SetAdmin { new_admin },
            *old(token),
            *final(token),
            *old(env),
            *final(env),
            result,
        ),
{
}

/// [`RwaToken::propose_admin`] carries out [`Operation::ProposeAdmin`].
pub proof fn propose_admin_is_carried_out(
    token: &mut RwaToken,
    env: &mut Env,
    caller: Address,
    new_admin: Address,
    nonce: u64,
    result: Result<(), Halt>,
)
    requires
        call_ensures(RwaToken::propose_admin, (token, env, caller, new_admin, nonce), result),
    ensures
        carried_out(
            Operation::ProposeAdmin { caller, new_admin, nonce },
            *old(token),
            *final(token),
            *old(env),
            *final(env),
            result,
        ),
{
}

/// [`RwaToken::accept_admin`] carries out [`Operation::AcceptAdmin`].
pub proof fn accept_admin_is_carried_out(
    token: &mut RwaToken,
    env: &mut Env,
    result: Result<(), Halt>,
)
    requires
        call_ensures(RwaToken::accept_admin, (token, env), result),
    ensures
        carried_out(
            Operation::AcceptAdmin,
            *old(token),
            *final(token),
            *old(env),
            *final(env),
            result,
        ),
{
}

/// [`RwaToken::update_kyc_registry`] carries out [`Operation::UpdateKycRegistry`].
pub proof fn update_kyc_registry_is_carried_out(
    token: &mut RwaToken,
    env: &mut Env,
    caller: Address,
    new_registry: Address,
    nonce: u64,
    result: Result<(), Halt>,
)
    requires
        call_ensures(
            RwaToken::update_kyc_registry,
            (token, env, caller, new_registry, nonce),
            result,
        ),
    ensures
        carried_out(
            Operation::UpdateKycRegistry { caller, new_registry, nonce },
            *old(token),
            *final(token),
            *old(env),
            *final(env),
            result,
        ),
{
}

/// [`RwaToken::update_compliance_engine`] carries out [`Operation::UpdateComplianceEngine`].
pub proof fn update_compliance_engine_is_carried_out(
    token: &mut RwaToken,
    env: &mut Env,
    caller: Address,
    new_engine: Address,
    nonce: u64,
    result: Result<(), Halt>,
)
    requires
        call_ensures(
            RwaToken::update_compliance_engine,
            (token, env, caller, new_engine, nonce),
            result,
        ),
    ensures
        carried_out(
            Operation::UpdateComplianceEngine { caller, new_engine, nonce },
            *old(token),
            *final(token),
            *old(env),
            *final(env),
            result,
        ),
{
}

/// [`RwaToken::assign_role`] carries out [`Operation::AssignRole`].
pub proof fn assign_role_is_carried_out(
    token: &mut RwaToken,
    env: &mut Env,
    role: String,
    holder: Address,
    nonce: u64,
    result: Result<(), Halt>,
)
    requires
        call_ensures(RwaToken::assign_role, (token, env, role, holder, nonce), result),
    ensures
        carried_out(
            Operation::AssignRole { role, holder, nonce },
            *old(token),
            *final(token),
            *old(env),
            *final(env),
            result,
        ),
{
}

/// [`RwaToken::revoke_role`] carries out [`Operation::RevokeRole`].
pub proof fn revoke_role_is_carried_out(
    token: &mut RwaToken,
    env: &mut Env,
    role: String,
    nonce: u64,
    result: Result<(), Halt>,
)
    requires
        call_ensures(RwaToken::revoke_role, (token, env, role, nonce), result),
    ensures
        carried_out(
            Operation::RevokeRole { role, nonce },
            *old(token),
            *final(token),
            *old(env),
            *final(env),
            result,
        ),
{
}

/// [`RwaToken::freeze`] carries out [`Operation::Freeze`].
pub proof fn freeze_is_carried_out(
    token: &mut RwaToken,
    env: &mut Env,
    caller: Address,
    addr: Address,
    result: Result<(), Halt>,
)
    requires
        call_ensures(RwaToken::freeze, (token, env, caller, addr), result),
    ensures
        carried_out(
            Operation::Freeze { caller, addr },
            *old(token),
            *final(token),
            *old(env),
            *final(env),
            result,
        ),
{
}

/// [`RwaToken::unfreeze`] carries out [`Operation::Unfreeze`].
pub proof fn unfreeze_is_carried_out(
    token: &mut RwaToken,
    env: &mut Env,
    caller: Address,
    addr: Address,
    result: Result<(), Halt>,
)
    requires
        call_ensures(RwaToken::unfreeze, (token, env, caller, addr), result),
    ensures
        carried_out(
            Operation::Unfreeze { caller, addr },
            *old(token),
            *final(token),
            *old(env),
            *final(env),
            result,
        ),
{
}

/// [`RwaToken::approve`] carries out [`Operation::Approve`].
pub proof fn approve_is_carried_out(
    token: &mut RwaToken,
    env: &mut Env,
    from: Address,
    spender: Address,
    amount: i128,
    expiration_ledger: u32,
    result: Result<(), Halt>,
)
    requires
        call_ensures(
            RwaToken::approve,
            (token, env, from, spender, amount, expiration_ledger),
            result,
        ),
    ensures
        carried_out(
            Operation::Approve { from, spender, amount, expiration_ledger },
            *old(token),
            *final(token),
            *old(env),
            *final(env),
            result,
        ),
{
}

/// [`RwaToken::transfer`] carries out [`Operation::Transfer`].
pub proof fn transfer_is_carried_out(
    token: &mut RwaToken,
    env: &mut Env,
    from: Address,
    to: Address,
    amount: i128,
    result: Result<(), Halt>,
)
    requires
        call_ensures(RwaToken::transfer, (token, env, from, to, amount), result),
    ensures
        carried_out(
            Operation::Transfer { from, to, amount },
            *old(token),
            *final(token),
            *old(env),
            *final(env),
            result,
        ),
{
}

/// [`RwaToken::transfer_from`] carries out [`Operation::TransferFrom`].
pub proof fn transfer_from_is_carried_out(
    token: &mut RwaToken,
    env: &mut Env,
    spender: Address,
    from: Address,
    to: Address,
    amount: i128,
    result: Result<(), Halt>,
)
    requires
        call_ensures(RwaToken::transfer_from, (token, env, spender, from, to, amount), result),
    ensures
        carried_out(
            Operation::TransferFrom { spender, from, to, amount },
            *old(token),
            *final(token),
            *old(env),
            *final(env),
            result,
        ),
{
}

/// [`RwaToken::batch_transfer`] carries out [`Operation::BatchTransfer`].
pub proof fn batch_transfer_is_carried_out(
    token: &mut RwaToken,
    env: &mut Env,
    from: Address,
    recipients: Vec<RecipientEntry>,
    result: Result<(), Halt>,
)
    requires
        call_ensures(RwaToken::batch_transfer, (token, env, from, recipients), result),
    ensures
        carried_out(
            Operation::BatchTransfer { from, recipients },
            *old(token),
            *final(token),
            *old(env),
            *final(env),
            result,
        ),
{
}

/// [`RwaToken::batch_transfer_from`] carries out [`Operation::BatchTransferFrom`].
pub proof fn batch_transfer_from_is_carried_out(
    token: &mut RwaToken,
    env: &mut Env,
    spender: Address,
    from: Address,
    recipients: Vec<RecipientEntry>,
    result: Result<(), Halt>,
)
    requires
        call_ensures(
            RwaToken::batch_transfer_from,
            (token, env, spender, from, recipients),
            result,
        ),
    ensures
        carried_out(
            Operation::BatchTransferFrom { spender, from, recipients },
            *old(token),
            *final(token),
            *old(env),
            *final(env),
            result,
        ),
{
}

/// [`RwaToken::mint`] carries out [`Operation::Mint`].
pub proof fn mint_is_carried_out(
    token: &mut RwaToken,
    env: &mut Env,
    caller: Address,
    to: Address,
    amount: i128,
    result: Result<(), Halt>,
)
    requires
        call_ensures(RwaToken::mint, (token, env, caller, to, amount), result),
    ensures
        carried_out(
            Operation::Mint { caller, to, amount },
            *old(token),
            *final(token),
            *old(env),
            *final(env),
            result,
        ),
{
}

/// [`RwaToken::burn`] carries out [`Operation::Burn`].
pub proof fn burn_is_carried_out(
    token: &mut RwaToken,
    env: &mut Env,
    from: Address,
    amount: i128,
    result: Result<(), Halt>,
)
    requires
        call_ensures(RwaToken::burn, (token, env, from, amount), result),
    ensures
        carried_out(
            Operation::Burn { from, amount },
            *old(token),
            *final(token),
            *old(env),
            *final(env),
            result,
        ),
{
}

/// [`RwaToken::burn_from`] carries out [`Operation::BurnFrom`].
pub proof fn burn_from_is_carried_out(
    token: &mut RwaToken,
    env: &mut Env,
    spender: Address,
    from: Address,
    amount: i128,
    result: Result<(), Halt>,
)
    requires
        call_ensures(RwaToken::burn_from, (token, env, spender, from, amount), result),
    ensures
        carried_out(
            Operation::BurnFrom { spender, from, amount },
            *old(token),
            *final(token),
            *old(env),
            *final(env),
            result,
        ),
{
}

/// [`RwaToken::set_compliance_metadata`] carries out [`Operation::SetComplianceMetadata`].
pub proof fn set_compliance_metadata_is_carried_out(
    token: &mut RwaToken,
    env: &mut Env,
    caller: Address,
    key: String,
    value: String,
    nonce: u64,
    result: Result<(), Halt>,
)
    requires
        call_ensures(
            RwaToken::set_compliance_metadata,
            (token, env, caller, key, value, nonce),
            result,
        ),
    ensures
        carried_out(
            Operation::SetComplianceMetadata { caller, key, value, nonce },
            *old(token),
            *final(token),
            *old(env),
            *final(env),
            result,
        ),
{
}

/// [`RwaToken::set_external_uri`] carries out [`Operation::SetExternalUri`].
pub proof fn set_external_uri_is_carried_out(
    token: &mut RwaToken,
    env: &mut Env,
    uri: String,
    result: Result<(), Halt>,
)
    requires
        call_ensures(RwaToken::set_external_uri, (token, env, uri), result),
    ensures
        carried_out(
            Operation::SetExternalUri { uri },
            *old(token),
            *final(token),
            *old(env),
            *final(env),
            result,
        ),
{
}

/// [`RwaToken::migrate`] carries out [`Operation::Migrate`].
pub proof fn migrate_is_carried_out(
    token: &mut RwaToken,
    env: &mut Env,
    new_version: String,
    description: String,
    nonce: u64,
    result: Result<(), Halt>,
)
    requires
        call_ensures(RwaToken::migrate, (token, env, new_version, description, nonce), result),
    ensures
        carried_out(
            Operation::Migrate { new_version, description, nonce },
            *old(token),
            *final(token),
            *old(env),
            *final(env),
            result,
        ),
{
}

/// [`RwaToken::migrate_schema`] carries out [`Operation::MigrateSchema`].
pub proof fn migrate_schema_is_carried_out(
    token: &mut RwaToken,
    env: &mut Env,
    to_version: u32,
    description: String,
    nonce: u64,
    result: Result<(), Halt>,
)
    requires
        call_ensures(
            RwaToken::migrate_schema,
            (token, env, to_version, description, nonce),
            result,
        ),
    ensures
        carried_out(
            Operation::MigrateSchema { to_version, description, nonce },
            *old(token),
            *final(token),
            *old(env),
            *final(env),
            result,
        ),
{
}

/// [`RwaToken::configure_recovery`] carries out [`Operation::ConfigureRecovery`].
pub proof fn configure_recovery_is_carried_out(
    token: &mut RwaToken,
    env: &mut Env,
    threshold: u32,
    members: Vec<Address>,
    cooldown: u32,
    result: Result<(), Halt>,
)
    requires
        call_ensures(
            RwaToken::configure_recovery,
            (token, env, threshold, members, cooldown),
            result,
        ),
    ensures
        carried_out(
            Operation::ConfigureRecovery { threshold, members, cooldown },
            *old(token),
            *final(token),
            *old(env),
            *final(env),
            result,
        ),
{
}

/// [`RwaToken::propose_recovery`] carries out [`Operation::ProposeRecovery`].
pub proof fn propose_recovery_is_carried_out(
    token: &mut RwaToken,
    env: &mut Env,
    caller: Address,
    proposed_admin: Address,
    result: Result<(), Halt>,
)
    requires
        call_ensures(RwaToken::propose_recovery, (token, env, caller, proposed_admin), result),
    ensures
        carried_out(
            Operation::ProposeRecovery { caller, proposed_admin },
            *old(token),
            *final(token),
            *old(env),
            *final(env),
            result,
        ),
{
}

/// [`RwaToken::approve_recovery`] carries out [`Operation::ApproveRecovery`].
pub proof fn approve_recovery_is_carried_out(
    token: &mut RwaToken,
    env: &mut Env,
    caller: Address,
    result: Result<(), Halt>,
)
    requires
        call_ensures(RwaToken::approve_recovery, (token, env, caller), result),
    ensures
        carried_out(
            Operation::ApproveRecovery { caller },
            *old(token),
            *final(token),
            *old(env),
            *final(env),
            result,
        ),
{
}

/// [`RwaToken::execute_recovery`] carries out [`Operation::ExecuteRecovery`].
pub proof fn execute_recovery_is_carried_out(
    token: &mut RwaToken,
    env: &mut Env,
    caller: Address,
    result: Result<(), Halt>,
)
    requires
        call_ensures(RwaToken::execute_recovery, (token, env, caller), result),
    ensures
        carried_out(
            Operation::ExecuteRecovery { caller },
            *old(token),
            *final(token),
            *old(env),
            *final(env),
            result,
        ),
{
}

/// [`RwaToken::cancel_recovery`] carries out [`Operation::CancelRecovery`].
pub proof fn cancel_recovery_is_carried_out(
    token: &mut RwaToken,
    env: &mut Env,
    result: Result<(), Halt>,
)
    requires
        call_ensures(RwaToken::cancel_recovery, (token, env), result),
    ensures
        carried_out(
            Operation::CancelRecovery,
            *old(token),
            *final(token),
            *old(env),
            *final(env),
            result,
        ),
{
}

} // verus!
