//! The link to the KYC registry.

use vstd::prelude::*;

use crate::events::{emit_kyc_stale, Event};
use crate::host::{ask, play, returns_run, Call, Env, EnvView, Reply, Step};
use crate::token::RwaToken;
use crate::types::{Address, Halt, RwaError};

verus! {

/// KYC status of an address, as the registry records it.
#[derive(Clone, Copy, Debug, PartialEq, Eq, Structural)]
pub enum KycStatusMirror {
    Pending,
    Approved,
    Rejected,
    Revoked,
}

/// The registry's record of an address.
#[derive(Clone, Debug, PartialEq, Eq)]
pub struct KycRecord {
    pub status: KycStatusMirror,
    pub tier: u32,
    /// The last second at which an approval holds; zero means it never lapses.
    pub expiry: u64,
    pub jurisdiction: String,
}

/// The KYC state of an address at one moment, as seen from the token.
#[derive(Clone, Debug, PartialEq, Eq)]
pub struct KycSyncStatus {
    pub is_active: bool,
    pub status: KycStatusMirror,
    pub tier: u32,
    pub expiry: u64,
    pub jurisdiction: String,
    pub checked_at: u64,
}

/// Whether a record is an approval that holds at `now`. It still holds in the
/// second of its expiry.
pub open spec fn active_at(record: KycRecord, now: u64) -> bool {
    record.status is Approved && (record.expiry == 0 || record.expiry >= now)
}

/// The snapshot of a record that is taken at `now`.
pub open spec fn snapshot(record: KycRecord, now: u64) -> KycSyncStatus {
    KycSyncStatus {
        is_active: active_at(record, now),
        status: record.status,
        tier: record.tier,
        expiry: record.expiry,
        jurisdiction: record.jurisdiction,
        checked_at: now,
    }
}

/// Stops unless the registry approves of `addr`.
pub fn require_kyc(token: &RwaToken, env: &mut Env, addr: Address) -> (result: Result<(), Halt>)
    ensures
        returns_run(
            final(env)@,
            result,
            ask(old(env)@, Call::IsApproved { registry: token@.kyc_registry, addr }),
        ),
{
    match env.call(Call::IsApproved { registry: token.kyc_registry, addr })? {
        Reply::Flag(approved) => if approved {
            Ok(())
        } else {
            Err(Halt::Error(RwaError::KycNotApproved))
        },
        _ => Err(Halt::Error(RwaError::KycRegistryUnavailable)),
    }
}

/// Evaluates a registry record at `now`.
pub fn evaluate_record(record: KycRecord, now: u64) -> (status: KycSyncStatus)
    ensures
        status == snapshot(record, now),
{
    let is_active = record.status == KycStatusMirror::Approved && (record.expiry == 0
        || record.expiry >= now);
    KycSyncStatus {
        is_active,
        status: record.status,
        tier: record.tier,
        expiry: record.expiry,
        jurisdiction: record.jurisdiction,
        checked_at: now,
    }
}

/// Fetches the record of `addr` and evaluates it now.
pub fn fetch_kyc_sync_status(token: &RwaToken, env: &mut Env, addr: Address) -> (status: Result<
    KycSyncStatus,
    Halt,
>)
    ensures
        returns_run(
            final(env)@,
            status,
            ask(old(env)@, Call::GetRecord { registry: token@.kyc_registry, addr }),
        ),
        status matches Ok(status) ==> status == snapshot(
            old(env)@.inbox[0]->Record_0,
            old(env)@.timestamp,
        ),
{
    match env.call(Call::GetRecord { registry: token.kyc_registry, addr })? {
        Reply::Record(record) => Ok(evaluate_record(record, env.timestamp)),
        _ => Err(Halt::Error(RwaError::KycRegistryUnavailable)),
    }
}

/// Fetches the record of `addr` and publishes whether it is active. The record
/// is the first answer of the inbox.
pub open spec fn sync_kyc_status_steps(
    registry: Address,
    env: EnvView,
    addr: Address,
) -> Seq<Step> {
    let status = snapshot(env.inbox[0]->Record_0, env.timestamp);
    seq![
        Step::Ask(Call::GetRecord { registry, addr }),
        Step::Emit(
            Event::KycStale { addr, is_active: status.is_active, expiry: status.expiry },
        ),
    ]
}

impl RwaToken {
    /// Returns the KYC registry.
    pub fn kyc_registry(&self) -> (registry: Address)
        ensures
            registry == self@.kyc_registry,
    {
        self.kyc_registry
    }

    /// Returns the KYC state of `addr` as of now. Only an approval that has
    /// not lapsed is active.
    pub fn check_kyc_status(&self, env: &mut Env, addr: Address) -> (status: Result<
        KycSyncStatus,
        Halt,
    >)
        ensures
            returns_run(
                final(env)@,
                status,
                ask(old(env)@, Call::GetRecord { registry: self@.kyc_registry, addr }),
            ),
            status matches Ok(status) ==> status == snapshot(
                old(env)@.inbox[0]->Record_0,
                old(env)@.timestamp,
            ),
    {
        fetch_kyc_sync_status(self, env, addr)
    }

    /// Publishes the KYC state of `addr` and returns whether it is active.
    /// Anyone may call this. The event is published either way.
    pub fn sync_kyc_status(&self, env: &mut Env, addr: Address) -> (is_active: Result<bool, Halt>)
        ensures
            returns_run(
                final(env)@,
                is_active,
                play(sync_kyc_status_steps(self@.kyc_registry, old(env)@, addr), old(env)@),
            ),
            is_active matches Ok(is_active) ==> is_active == active_at(
                old(env)@.inbox[0]->Record_0,
                old(env)@.timestamp,
            ),
    {
        reveal_with_fuel(play, 3);
        let status = fetch_kyc_sync_status(self, env, addr)?;
        emit_kyc_stale(env, addr, status.is_active, status.expiry);
        Ok(status.is_active)
    }
}

} // verus!
