//! The events that the token publishes.
//!
//! | Function                     | Topics                     | Data                        |
//! |------------------------------|----------------------------|-----------------------------|
//! | `emit_transfer`              | ("transfer", from, to)     | (amount, timestamp)         |
//! | `emit_mint`                  | ("mint", to)               | (amount, timestamp)         |
//! | `emit_burn`                  | ("burn", from)             | (amount, timestamp)         |
//! | `emit_approve`               | ("approve", from, spender) | (amount, expiration ledger) |
//! | `emit_freeze`                | ("freeze", addr)           | ()                          |
//! | `emit_unfreeze`              | ("unfreeze", addr)         | ()                          |
//! | `emit_admin_proposed`        | ("adm_prp",)               | (new admin, nonce)          |
//! | `emit_pending_admin_cleared` | ("adm_clr",)               | ()                          |
//! | `emit_admin_set`             | ("adm_set",)               | (old, new)                  |
//! | `emit_admin_accepted`        | ("adm_set",)               | (old, new, nonce)           |
//! | `emit_kyc_updated`           | ("kyc_upd",)               | (new registry, nonce)       |
//! | `emit_ce_updated`            | ("ce_upd",)                | (new engine, nonce)         |
//! | `emit_role_assigned`         | ("role_set",)              | (role, holder, nonce)       |
//! | `emit_role_revoked`          | ("role_rev",)              | (role, nonce)               |
//! | `emit_recovery_configured`   | ("rcv_cfg",)               | (threshold, member count)   |
//! | `emit_recovery_proposed`     | ("rcv_prp",)               | (proposed admin, expiry)    |
//! | `emit_recovery_approved`     | ("rcv_apv",)               | (approver, approval count)  |
//! | `emit_recovery_executed`     | ("rcv_exe",)               | (old, new)                  |
//! | `emit_recovery_cancelled`    | ("rcv_can",)               | ()                          |
//! | `emit_external_uri`          | ("ext_uri",)               | uri                         |
//! | `emit_external_uri_cleared`  | ("ext_uri_cleared",)       | ()                          |
//! | `emit_kyc_stale`             | ("kyc_stale", addr)        | (is active, expiry)         |
//! | `emit_migrated`              | ("migrated",)              | (new version, nonce)        |
//! | `emit_schema_migrated`       | ("migrated",)              | (from version, to version)  |
//!
//! Timestamps are ledger timestamps in seconds. A nonce is the admin nonce
//! that the operation consumed; an accepted handover carries the admin nonce as
//! it stands.

use vstd::prelude::*;

use crate::host::Env;
use crate::types::Address;

verus! {

/// A published event.
#[derive(Clone, Debug, PartialEq, Eq)]
pub enum Event {
    Transfer { from: Address, to: Address, amount: i128, timestamp: u64 },
    Mint { to: Address, amount: i128, timestamp: u64 },
    Burn { from: Address, amount: i128, timestamp: u64 },
    Approve { from: Address, spender: Address, amount: i128, expiration_ledger: u32 },
    Freeze { addr: Address },
    Unfreeze { addr: Address },
    AdminProposed { new_admin: Address, nonce: u64 },
    PendingAdminCleared,
    AdminSet { old_admin: Address, new_admin: Address },
    AdminAccepted { old_admin: Address, new_admin: Address, nonce: u64 },
    KycUpdated { new_registry: Address, nonce: u64 },
    CeUpdated { new_engine: Address, nonce: u64 },
    RoleAssigned { role: String, holder: Address, nonce: u64 },
    RoleRevoked { role: String, nonce: u64 },
    RecoveryConfigured { threshold: u32, member_count: u32 },
    RecoveryProposed { proposed_admin: Address, expiry_ledger: u64 },
    RecoveryApproved { approver: Address, approval_count: u32 },
    RecoveryExecuted { old_admin: Address, new_admin: Address },
    RecoveryCancelled,
    ExternalUri { uri: String },
    ExternalUriCleared,
    KycStale { addr: Address, is_active: bool, expiry: u64 },
    Migrated { new_version: String, nonce: u64 },
    SchemaMigrated { from_version: u32, to_version: u32 },
}

/// One value of an event's data.
#[derive(Clone, Debug, PartialEq, Eq)]
pub enum Value {
    Address(Address),
    I128(i128),
    U32(u32),
    U64(u64),
    Bool(bool),
    Symbol(String),
    Text(String),
}

impl Event {
    /// The symbol that leads the event's topics.
    pub open spec fn spec_topic(self) -> Seq<char> {
        match self {
            Event::Transfer { .. } => "transfer"@,
            Event::Mint { .. } => "mint"@,
            Event::Burn { .. } => "burn"@,
            Event::Approve { .. } => "approve"@,
            Event::Freeze { .. } => "freeze"@,
            Event::Unfreeze { .. } => "unfreeze"@,
            Event::AdminProposed { .. } => "adm_prp"@,
            Event::PendingAdminCleared => "adm_clr"@,
            Event::AdminSet { .. } => "adm_set"@,
            Event::AdminAccepted { .. } => "adm_set"@,
            Event::KycUpdated { .. } => "kyc_upd"@,
            Event::CeUpdated { .. } => "ce_upd"@,
            Event::RoleAssigned { .. } => "role_set"@,
            Event::RoleRevoked { .. } => "role_rev"@,
            Event::RecoveryConfigured { .. } => "rcv_cfg"@,
            Event::RecoveryProposed { .. } => "rcv_prp"@,
            Event::RecoveryApproved { .. } => "rcv_apv"@,
            Event::RecoveryExecuted { .. } => "rcv_exe"@,
            Event::RecoveryCancelled => "rcv_can"@,
            Event::ExternalUri { .. } => "ext_uri"@,
            Event::ExternalUriCleared => "ext_uri_cleared"@,
            Event::KycStale { .. } => "kyc_stale"@,
            Event::Migrated { .. } => "migrated"@,
            Event::SchemaMigrated { .. } => "migrated"@,
        }
    }

    /// The addresses that follow the symbol in the event's topics.
    pub open spec fn spec_subjects(self) -> Seq<Address> {
        match self {
            Event::Transfer { from, to, .. } => seq![from, to],
            Event::Mint { to, .. } => seq![to],
            Event::Burn { from, .. } => seq![from],
            Event::Approve { from, spender, .. } => seq![from, spender],
            Event::Freeze { addr } => seq![addr],
            Event::Unfreeze { addr } => seq![addr],
            Event::KycStale { addr, .. } => seq![addr],
            _ => seq![],
        }
    }

    /// The event's data: nothing, one bare value, or a tuple of values.
    pub open spec fn spec_data(self) -> Seq<Value> {
        match self {
            Event::Transfer { amount, timestamp, .. } => seq![
                Value::I128(amount),
                Value::U64(timestamp),
            ],
            Event::Mint { amount, timestamp, .. } => seq![
                Value::I128(amount),
                Value::U64(timestamp),
            ],
            Event::Burn { amount, timestamp, .. } => seq![
                Value::I128(amount),
                Value::U64(timestamp),
            ],
            Event::Approve { amount, expiration_ledger, .. } => seq![
                Value::I128(amount),
                Value::U32(expiration_ledger),
            ],
            Event::Freeze { .. } => seq![],
            Event::Unfreeze { .. } => seq![],
            Event::AdminProposed { new_admin, nonce } => seq![
                Value::Address(new_admin),
                Value::U64(nonce),
            ],
            Event::PendingAdminCleared => seq![],
            Event::AdminSet { old_admin, new_admin } => seq![
                Value::Address(old_admin),
                Value::Address(new_admin),
            ],
            Event::AdminAccepted { old_admin, new_admin, nonce } => seq![
                Value::Address(old_admin),
                Value::Address(new_admin),
                Value::U64(nonce),
            ],
            Event::KycUpdated { new_registry, nonce } => seq![
                Value::Address(new_registry),
                Value::U64(nonce),
            ],
            Event::CeUpdated { new_engine, nonce } => seq![
                Value::Address(new_engine),
                Value::U64(nonce),
            ],
            Event::RoleAssigned { role, holder, nonce } => seq![
                Value::Symbol(role),
                Value::Address(holder),
                Value::U64(nonce),
            ],
            Event::RoleRevoked { role, nonce } => seq![Value::Symbol(role), Value::U64(nonce)],
            Event::RecoveryConfigured { threshold, member_count } => seq![
                Value::U32(threshold),
                Value::U32(member_count),
            ],
            Event::RecoveryProposed { proposed_admin, expiry_ledger } => seq![
                Value::Address(proposed_admin),
                Value::U64(expiry_ledger),
            ],
            Event::RecoveryApproved { approver, approval_count } => seq![
                Value::Address(approver),
                Value::U32(approval_count),
            ],
            Event::RecoveryExecuted { old_admin, new_admin } => seq![
                Value::Address(old_admin),
                Value::Address(new_admin),
            ],
            Event::RecoveryCancelled => seq![],
            Event::ExternalUri { uri } => seq![Value::Text(uri)],
            Event::ExternalUriCleared => seq![],
            Event::KycStale { is_active, expiry, .. } => seq![
                Value::Bool(is_active),
                Value::U64(expiry),
            ],
            Event::Migrated { new_version, nonce } => seq![
                Value::Text(new_version),
                Value::U64(nonce),
            ],
            Event::SchemaMigrated { from_version, to_version } => seq![
                Value::U32(from_version),
                Value::U32(to_version),
            ],
        }
    }

    /// Returns the symbol that leads the event's topics.
    pub fn topic(&self) -> (topic: &'static str)
        ensures
            topic@ == self.spec_topic(),
    {
        match self {
            Event::Transfer { .. } => "transfer",
            Event::Mint { .. } => "mint",
            Event::Burn { .. } => "burn",
            Event::Approve { .. } => "approve",
            Event::Freeze { .. } => "freeze",
            Event::Unfreeze { .. } => "unfreeze",
            Event::AdminProposed { .. } => "adm_prp",
            Event::PendingAdminCleared => "adm_clr",
            Event::AdminSet { .. } => "adm_set",
            Event::AdminAccepted { .. } => "adm_set",
            Event::KycUpdated { .. } => "kyc_upd",
            Event::CeUpdated { .. } => "ce_upd",
            Event::RoleAssigned { .. } => "role_set",
            Event::RoleRevoked { .. } => "role_rev",
            Event::RecoveryConfigured { .. } => "rcv_cfg",
            Event::RecoveryProposed { .. } => "rcv_prp",
            Event::RecoveryApproved { .. } => "rcv_apv",
            Event::RecoveryExecuted { .. } => "rcv_exe",
            Event::RecoveryCancelled => "rcv_can",
            Event::ExternalUri { .. } => "ext_uri",
            Event::ExternalUriCleared => "ext_uri_cleared",
            Event::KycStale { .. } => "kyc_stale",
            Event::Migrated { .. } => "migrated",
            Event::SchemaMigrated { .. } => "migrated",
        }
    }

    /// Returns the addresses that follow the symbol in the event's topics.
    pub fn subjects(&self) -> (subjects: Vec<Address>)
        ensures
            subjects@ == self.spec_subjects(),
    {
        match self {
            Event::Transfer { from, to, .. } => vec![*from, *to],
            Event::Mint { to, .. } => vec![*to],
            Event::Burn { from, .. } => vec![*from],
            Event::Approve { from, spender, .. } => vec![*from, *spender],
            Event::Freeze { addr } => vec![*addr],
            Event::Unfreeze { addr } => vec![*addr],
            Event::KycStale { addr, .. } => vec![*addr],
            _ => Vec::new(),
        }
    }

    /// Returns the event's data: nothing, one bare value, or a tuple of values.
    pub fn data(&self) -> (data: Vec<Value>)
        ensures
            data@ == self.spec_data(),
    {
        match self {
            Event::Transfer { amount, timestamp, .. } => vec![
                Value::I128(*amount),
                Value::U64(*timestamp),
            ],
            Event::Mint { amount, timestamp, .. } => vec![
                Value::I128(*amount),
                Value::U64(*timestamp),
            ],
            Event::Burn { amount, timestamp, .. } => vec![
                Value::I128(*amount),
                Value::U64(*timestamp),
            ],
            Event::Approve { amount, expiration_ledger, .. } => vec![
                Value::I128(*amount),
                Value::U32(*expiration_ledger),
            ],
            Event::Freeze { .. } => Vec::new(),
            Event::Unfreeze { .. } => Vec::new(),
            Event::AdminProposed { new_admin, nonce } => vec![
                Value::Address(*new_admin),
                Value::U64(*nonce),
            ],
            Event::PendingAdminCleared => Vec::new(),
            Event::AdminSet { old_admin, new_admin } => vec![
                Value::Address(*old_admin),
                Value::Address(*new_admin),
            ],
            Event::AdminAccepted { old_admin, new_admin, nonce } => vec![
                Value::Address(*old_admin),
                Value::Address(*new_admin),
                Value::U64(*nonce),
            ],
            Event::KycUpdated { new_registry, nonce } => vec![
                Value::Address(*new_registry),
                Value::U64(*nonce),
            ],
            Event::CeUpdated { new_engine, nonce } => vec![
                Value::Address(*new_engine),
                Value::U64(*nonce),
            ],
            Event::RoleAssigned { role, holder, nonce } => vec![
                Value::Symbol(role.clone()),
                Value::Address(*holder),
                Value::U64(*nonce),
            ],
            Event::RoleRevoked { role, nonce } => vec![
                Value::Symbol(role.clone()),
                Value::U64(*nonce),
            ],
            Event::RecoveryConfigured { threshold, member_count } => vec![
                Value::U32(*threshold),
                Value::U32(*member_count),
            ],
            Event::RecoveryProposed { proposed_admin, expiry_ledger } => vec![
                Value::Address(*proposed_admin),
                Value::U64(*expiry_ledger),
            ],
            Event::RecoveryApproved { approver, approval_count } => vec![
                Value::Address(*approver),
                Value::U32(*approval_count),
            ],
            Event::RecoveryExecuted { old_admin, new_admin } => vec![
                Value::Address(*old_admin),
                Value::Address(*new_admin),
            ],
            Event::RecoveryCancelled => Vec::new(),
            Event::ExternalUri { uri } => vec![Value::Text(uri.clone())],
            Event::ExternalUriCleared => Vec::new(),
            Event::KycStale { is_active, expiry, .. } => vec![
                Value::Bool(*is_active),
                Value::U64(*expiry),
            ],
            Event::Migrated { new_version, nonce } => vec![
                Value::Text(new_version.clone()),
                Value::U64(*nonce),
            ],
            Event::SchemaMigrated { from_version, to_version } => vec![
                Value::U32(*from_version),
                Value::U32(*to_version),
            ],
        }
    }
}

pub fn emit_transfer(env: &mut Env, from: Address, to: Address, amount: i128)
    ensures
        final(env)@ == old(env)@.publish(
            Event::Transfer { from, to, amount, timestamp: old(env)@.timestamp },
        ),
{
    let timestamp: u64 = env.timestamp;
    env.publish(Event::Transfer { from, to, amount, timestamp });
}

pub fn emit_mint(env: &mut Env, to: Address, amount: i128)
    ensures
        final(env)@ == old(env)@.publish(
            Event::Mint { to, amount, timestamp: old(env)@.timestamp },
        ),
{
    let timestamp: u64 = env.timestamp;
    env.publish(Event::Mint { to, amount, timestamp });
}

pub fn emit_burn(env: &mut Env, from: Address, amount: i128)
    ensures
        final(env)@ == old(env)@.publish(
            Event::Burn { from, amount, timestamp: old(env)@.timestamp },
        ),
{
    let timestamp: u64 = env.timestamp;
    env.publish(Event::Burn { from, amount, timestamp });
}

pub fn emit_approve(
    env: &mut Env,
    from: Address,
    spender: Address,
    amount: i128,
    expiration_ledger: u32,
)
    ensures
        final(env)@ == old(env)@.publish(
            Event::Approve { from, spender, amount, expiration_ledger },
        ),
{
    env.publish(Event::Approve { from, spender, amount, expiration_ledger });
}

pub fn emit_freeze(env: &mut Env, addr: Address)
    ensures
        final(env)@ == old(env)@.publish(Event::Freeze { addr }),
{
    env.publish(Event::Freeze { addr });
}

pub fn emit_unfreeze(env: &mut Env, addr: Address)
    ensures
        final(env)@ == old(env)@.publish(Event::Unfreeze { addr }),
{
    env.publish(Event::Unfreeze { addr });
}

pub fn emit_admin_proposed(env: &mut Env, new_admin: Address, nonce: u64)
    ensures
        final(env)@ == old(env)@.publish(Event::AdminProposed { new_admin, nonce }),
{
    env.publish(Event::AdminProposed { new_admin, nonce });
}

pub fn emit_pending_admin_cleared(env: &mut Env)
    ensures
        final(env)@ == old(env)@.publish(Event::PendingAdminCleared),
{
    env.publish(Event::PendingAdminCleared);
}

pub fn emit_admin_set(env: &mut Env, old_admin: Address, new_admin: Address)
    ensures
        final(env)@ == old(env)@.publish(Event::AdminSet { old_admin, new_admin }),
{
    env.publish(Event::AdminSet { old_admin, new_admin });
}

pub fn emit_admin_accepted(env: &mut Env, old_admin: Address, new_admin: Address, nonce: u64)
    ensures
        final(env)@ == old(env)@.publish(Event::AdminAccepted { old_admin, new_admin, nonce }),
{
    env.publish(Event::AdminAccepted { old_admin, new_admin, nonce });
}

pub fn emit_kyc_updated(env: &mut Env, new_registry: Address, nonce: u64)
    ensures
        final(env)@ == old(env)@.publish(Event::KycUpdated { new_registry, nonce }),
{
    env.publish(Event::KycUpdated { new_registry, nonce });
}

pub fn emit_ce_updated(env: &mut Env, new_engine: Address, nonce: u64)
    ensures
        final(env)@ == old(env)@.publish(Event::CeUpdated { new_engine, nonce }),
{
    env.publish(Event::CeUpdated { new_engine, nonce });
}

pub fn emit_role_assigned(env: &mut Env, role: String, holder: Address, nonce: u64)
    ensures
        final(env)@ == old(env)@.publish(Event::RoleAssigned { role, holder, nonce }),
{
    env.publish(Event::RoleAssigned { role, holder, nonce });
}

pub fn emit_role_revoked(env: &mut Env, role: String, nonce: u64)
    ensures
        final(env)@ == old(env)@.publish(Event::RoleRevoked { role, nonce }),
{
    env.publish(Event::RoleRevoked { role, nonce });
}

pub fn emit_recovery_configured(env: &mut Env, threshold: u32, member_count: u32)
    ensures
        final(env)@ == old(env)@.publish(Event::RecoveryConfigured { threshold, member_count }),
{
    env.publish(Event::RecoveryConfigured { threshold, member_count });
}

pub fn emit_recovery_proposed(env: &mut Env, proposed_admin: Address, expiry_ledger: u64)
    ensures
        final(env)@ == old(env)@.publish(
            Event::RecoveryProposed { proposed_admin, expiry_ledger },
        ),
{
    env.publish(Event::RecoveryProposed { proposed_admin, expiry_ledger });
}

pub fn emit_recovery_approved(env: &mut Env, approver: Address, approval_count: u32)
    ensures
        final(env)@ == old(env)@.publish(Event::RecoveryApproved { approver, approval_count }),
{
    env.publish(Event::RecoveryApproved { approver, approval_count });
}

pub fn emit_recovery_executed(env: &mut Env, old_admin: Address, new_admin: Address)
    ensures
        final(env)@ == old(env)@.publish(Event::RecoveryExecuted { old_admin, new_admin }),
{
    env.publish(Event::RecoveryExecuted { old_admin, new_admin });
}

pub fn emit_recovery_cancelled(env: &mut Env)
    ensures
        final(env)@ == old(env)@.publish(Event::RecoveryCancelled),
{
    env.publish(Event::RecoveryCancelled);
}

pub fn emit_external_uri(env: &mut Env, uri: String)
    ensures
        final(env)@ == old(env)@.publish(Event::ExternalUri { uri }),
{
    env.publish(Event::ExternalUri { uri });
}

pub fn emit_external_uri_cleared(env: &mut Env)
    ensures
        final(env)@ == old(env)@.publish(Event::ExternalUriCleared),
{
    env.publish(Event::ExternalUriCleared);
}

pub fn emit_kyc_stale(env: &mut Env, addr: Address, is_active: bool, expiry: u64)
    ensures
        final(env)@ == old(env)@.publish(Event::KycStale { addr, is_active, expiry }),
{
    env.publish(Event::KycStale { addr, is_active, expiry });
}

pub fn emit_migrated(env: &mut Env, new_version: String, nonce: u64)
    ensures
        final(env)@ == old(env)@.publish(Event::Migrated { new_version, nonce }),
{
    env.publish(Event::Migrated { new_version, nonce });
}

pub fn emit_schema_migrated(env: &mut Env, from_version: u32, to_version: u32)
    ensures
        final(env)@ == old(env)@.publish(Event::SchemaMigrated { from_version, to_version }),
{
    env.publish(Event::SchemaMigrated { from_version, to_version });
}

} // verus!
