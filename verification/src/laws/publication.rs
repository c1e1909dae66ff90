//! Laws of the events' published form.

use vstd::prelude::*;

use crate::events::{Event, Value};
use crate::types::Address;

verus! {

/// Whether an event is published with a symbol, addresses behind it and data.
pub open spec fn published_as(
    topic: &str,
    subjects: Vec<Address>,
    data: Vec<Value>,
    symbol: Seq<char>,
    addresses: Seq<Address>,
    values: Seq<Value>,
) -> bool {
    &&& topic@ == symbol
    &&& subjects@ == addresses
    &&& data@ == values
}

/// Each event is published under its own symbol, with the accounts that it is
/// about behind it, and carries its other fields in order.
#[verifier::rlimit(30)]
pub proof fn events_keep_their_layout(
    event: Event,
    topic: &'static str,
    subjects: Vec<Address>,
    data: Vec<Value>,
)
    requires
        call_ensures(Event::topic, (&event,), topic),
        call_ensures(Event::subjects, (&event,), subjects),
        call_ensures(Event::data, (&event,), data),
    ensures
        match event {
            Event::Transfer { from, to, amount, timestamp } => published_as(
                topic,
                subjects,
                data,
                "transfer"@,
                seq![from, to],
                seq![Value::I128(amount), Value::U64(timestamp)],
            ),
            Event::Mint { to, amount, timestamp } => published_as(
                topic,
                subjects,
                data,
                "mint"@,
                seq![to],
                seq![Value::I128(amount), Value::U64(timestamp)],
            ),
            Event::Burn { from, amount, timestamp } => published_as(
                topic,
                subjects,
                data,
                "burn"@,
                seq![from],
                seq![Value::I128(amount), Value::U64(timestamp)],
            ),
            Event::Approve { from, spender, amount, expiration_ledger } => published_as(
                topic,
                subjects,
                data,
                "approve"@,
                seq![from, spender],
                seq![Value::I128(amount), Value::U32(expiration_ledger)],
            ),
            Event::Freeze { addr } => published_as(
                topic,
                subjects,
                data,
                "freeze"@,
                seq![addr],
                Seq::empty(),
            ),
            Event::Unfreeze { addr } => published_as(
                topic,
                subjects,
                data,
                "unfreeze"@,
                seq![addr],
                Seq::empty(),
            ),
            Event::AdminProposed { new_admin, nonce } => published_as(
                topic,
                subjects,
                data,
                "adm_prp"@,
                Seq::empty(),
                seq![Value::Address(new_admin), Value::U64(nonce)],
            ),
            Event::PendingAdminCleared => published_as(
                topic,
                subjects,
                data,
                "adm_clr"@,
                Seq::empty(),
                Seq::empty(),
            ),
            Event::AdminSet { old_admin, new_admin } => published_as(
                topic,
                subjects,
                data,
                "adm_set"@,
                Seq::empty(),
                seq![Value::Address(old_admin), Value::Address(new_admin)],
            ),
            Event::AdminAccepted { old_admin, new_admin, nonce } => published_as(
                topic,
                subjects,
                data,
                "adm_set"@,
                Seq::empty(),
                seq![Value::Address(old_admin), Value::Address(new_admin), Value::U64(nonce)],
            ),
            Event::KycUpdated { new_registry, nonce } => published_as(
                topic,
                subjects,
                data,
                "kyc_upd"@,
                Seq::empty(),
                seq![Value::Address(new_registry), Value::U64(nonce)],
            ),
            Event::CeUpdated { new_engine, nonce } => published_as(
                topic,
                subjects,
                data,
                "ce_upd"@,
                Seq::empty(),
                seq![Value::Address(new_engine), Value::U64(nonce)],
            ),
            Event::RoleAssigned { role, holder, nonce } => published_as(
                topic,
                subjects,
                data,
                "role_set"@,
                Seq::empty(),
                seq![Value::Symbol(role), Value::Address(holder), Value::U64(nonce)],
            ),
            Event::RoleRevoked { role, nonce } => published_as(
                topic,
                subjects,
                data,
                "role_rev"@,
                Seq::empty(),
                seq![Value::Symbol(role), Value::U64(nonce)],
            ),
            Event::RecoveryConfigured { threshold, member_count } => published_as(
                topic,
                subjects,
                data,
                "rcv_cfg"@,
                Seq::empty(),
                seq![Value::U32(threshold), Value::U32(member_count)],
            ),
            Event::RecoveryProposed { proposed_admin, expiry_ledger } => published_as(
                topic,
                subjects,
                data,
                "rcv_prp"@,
                Seq::empty(),
                seq![Value::Address(proposed_admin), Value::U64(expiry_ledger)],
            ),
            Event::RecoveryApproved { approver, approval_count } => published_as(
                topic,
                subjects,
                data,
                "rcv_apv"@,
                Seq::empty(),
                seq![Value::Address(approver), Value::U32(approval_count)],
            ),
            Event::RecoveryExecuted { old_admin, new_admin } => published_as(
                topic,
                subjects,
                data,
                "rcv_exe"@,
                Seq::empty(),
                seq![Value::Address(old_admin), Value::Address(new_admin)],
            ),
            Event::RecoveryCancelled => published_as(
                topic,
                subjects,
                data,
                "rcv_can"@,
                Seq::empty(),
                Seq::empty(),
            ),
            Event::ExternalUri { uri } => published_as(
                topic,
                subjects,
                data,
                "ext_uri"@,
                Seq::empty(),
                seq![Value::Text(uri)],
            ),
            Event::ExternalUriCleared => published_as(
                topic,
                subjects,
                data,
                "ext_uri_cleared"@,
                Seq::empty(),
                Seq::empty(),
            ),
            Event::KycStale { addr, is_active, expiry } => published_as(
                topic,
                subjects,
                data,
                "kyc_stale"@,
                seq![addr],
                seq![Value::Bool(is_active), Value::U64(expiry)],
            ),
            Event::Migrated { new_version, nonce } => published_as(
                topic,
                subjects,
                data,
                "migrated"@,
                Seq::empty(),
                seq![Value::Text(new_version), Value::U64(nonce)],
            ),
            Event::SchemaMigrated { from_version, to_version } => published_as(
                topic,
                subjects,
                data,
                "migrated"@,
                Seq::empty(),
                seq![Value::U32(from_version), Value::U32(to_version)],
            ),
        },
{
}

} // verus!
