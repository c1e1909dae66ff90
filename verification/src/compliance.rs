//! The link to the compliance engine, frozen accounts and compliance metadata.

use vstd::prelude::*;

use crate::events::{emit_freeze, emit_unfreeze, Event};
use crate::host::{ask, capacity, returns_run, Call, Env, Reply, Step};
use crate::roles::{require_admin_or_role, role_steps, ROLE_COMPLIANCE};
use crate::token::{settles, RwaToken, TokenView};
use crate::types::{Address, Halt, RwaError};

verus! {

broadcast use crate::host::group_play;

/// Why the compliance engine denies a transfer.
#[derive(Clone, Copy, Debug, PartialEq, Eq, Structural)]
pub enum DenyReason {
    CompliancePaused,
    FromBlocklisted,
    ToBlocklisted,
    FromKycMissing,
    ToKycMissing,
    FromKycExpired,
    ToKycExpired,
    FromKycRevoked,
    ToKycRevoked,
    FromKycRejected,
    ToKycRejected,
    FromKycPending,
    ToKycPending,
    FromJurisdictionBlocked,
    ToJurisdictionBlocked,
    SameJurisdictionRequired,
    AmountExceeded,
    HoldingPeriodNotMet,
    MaxHoldersReached,
    RecipientHoldingPeriodExceeded,
    TierPolicyBlocked,
    TierFromBelowMin,
    TierToBelowMin,
    TierAmountExceeded,
    RiskScoreTooHigh,
}

/// The compliance engine's decision on a transfer.
#[derive(Clone, Copy, Debug, PartialEq, Eq, Structural)]
pub enum TransferDecision {
    Allow,
    Deny(DenyReason),
}

/// The compliance engine's rules.
#[derive(Clone, Copy, Debug, PartialEq, Eq, Structural)]
pub struct ComplianceRulesMirror {
    pub max_transfer_amount: i128,
    pub min_holding_period: u64,
    /// The largest number of holders; zero means that there is no cap.
    pub max_holders: u32,
    pub require_same_jurisdiction: bool,
    pub paused: bool,
    pub allowlist_mode: bool,
    pub max_holding_period: u64,
}

/// Returns the compliance engine.
pub fn read_compliance_engine(token: &RwaToken) -> (engine: Address)
    ensures
        engine == token@.compliance_engine,
{
    token.compliance_engine
}

/// Replaces the compliance engine.
pub fn write_compliance_engine(token: &mut RwaToken, engine: Address)
    ensures
        final(token)@ == (TokenView { compliance_engine: engine, ..old(token)@ }),
{
    token.compliance_engine = engine;
}

/// The metadata field under `key`, if it was ever set.
pub open spec fn metadata_of(token: TokenView, key: Seq<char>) -> Seq<char> {
    if token.compliance_meta.contains_key(key) {
        token.compliance_meta[key]@
    } else {
        Seq::empty()
    }
}

/// Sets the metadata field under `key`.
pub fn write_metadata(token: &mut RwaToken, key: String, value: String)
    ensures
        final(token)@ == (TokenView {
            compliance_meta: old(token)@.compliance_meta.insert(key@, value),
            ..old(token)@
        }),
{
    token.compliance_meta.set(key, value);
}

/// Returns the metadata field under `key`; it is empty where it was never set.
pub fn read_metadata(token: &RwaToken, key: &String) -> (value: String)
    ensures
        value@ == metadata_of(token@, key@),
{
    match token.compliance_meta.get(key) {
        Some(value) => value.clone(),
        None => String::new(),
    }
}

/// Stops unless the engine allows a transfer. A denial that is about KYC is
/// told apart from the others.
pub fn check_transfer(
    token: &RwaToken,
    env: &mut Env,
    from: Address,
    to: Address,
    amount: i128,
) -> (result: Result<(), Halt>)
    ensures
        returns_run(
            final(env)@,
            result,
            ask(
                old(env)@,
                Call::EvaluateTransfer { engine: token@.compliance_engine, from, to, amount },
            ),
        ),
{
    let engine = read_compliance_engine(token);
    match env.call(Call::EvaluateTransfer { engine, from, to, amount })? {
        Reply::Decision(TransferDecision::Allow) => Ok(()),
        Reply::Decision(TransferDecision::Deny(reason)) => match reason {
            DenyReason::FromKycMissing
            | DenyReason::ToKycMissing
            | DenyReason::FromKycExpired
            | DenyReason::ToKycExpired
            | DenyReason::FromKycRevoked
            | DenyReason::ToKycRevoked
            | DenyReason::FromKycRejected
            | DenyReason::ToKycRejected
            | DenyReason::FromKycPending
            | DenyReason::ToKycPending => Err(Halt::Error(RwaError::KycNotApproved)),
            _ => Err(Halt::Error(RwaError::TransferBlocked)),
        },
        _ => Err(Halt::Error(RwaError::ComplianceEngineUnavailable)),
    }
}

/// Stops unless the engine allows an inbound mint. The token contract itself
/// stands for the sender; the recipient's KYC has its own check.
pub fn check_mint(token: &RwaToken, env: &mut Env, to: Address, amount: i128) -> (result: Result<
    (),
    Halt,
>)
    ensures
        returns_run(
            final(env)@,
            result,
            ask(
                old(env)@,
                Call::CanTransfer {
                    engine: token@.compliance_engine,
                    from: old(env)@.contract,
                    to,
                    amount,
                },
            ),
        ),
{
    let engine = read_compliance_engine(token);
    let from = env.contract;
    match env.call(Call::CanTransfer { engine, from, to, amount })? {
        Reply::Flag(allowed) => if allowed {
            Ok(())
        } else {
            Err(Halt::Error(RwaError::TransferBlocked))
        },
        _ => Err(Halt::Error(RwaError::ComplianceEngineUnavailable)),
    }
}

/// Stops unless the engine's holder cap leaves room for a whole transfer.
///
/// The engine holds each leg against the current count only, so a batch with
/// several new holders needs this check of its own.
pub fn ensure_holder_capacity(
    token: &RwaToken,
    env: &mut Env,
    new_holder_count: u32,
    sender_will_leave: bool,
) -> (result: Result<(), Halt>)
    ensures
        returns_run(
            final(env)@,
            result,
            capacity(
                old(env)@,
                token@.compliance_engine,
                new_holder_count as nat,
                sender_will_leave,
            ),
        ),
{
    if new_holder_count == 0 {
        return Ok(());
    }
    let engine = read_compliance_engine(token);
    let rules = match env.call(Call::GetRules { engine })? {
        Reply::Rules(rules) => rules,
        _ => return Err(Halt::Error(RwaError::ComplianceEngineUnavailable)),
    };
    if rules.max_holders == 0 {
        return Ok(());
    }
    let current_count: u32 = match env.call(Call::HolderCount { engine })? {
        Reply::Count(count) => count,
        _ => return Err(Halt::Error(RwaError::ComplianceEngineUnavailable)),
    };
    let released_slots: u32 = if sender_will_leave {
        1
    } else {
        0
    };
    let projected_count: u32 = current_count.saturating_sub(released_slots).saturating_add(
        new_holder_count,
    );
    if projected_count > rules.max_holders {
        return Err(Halt::Error(RwaError::HolderLimitExceeded));
    }
    Ok(())
}

/// Tells the engine that `addr` became a holder.
pub fn register_holder(token: &RwaToken, env: &mut Env, addr: Address) -> (result: Result<
    (),
    Halt,
>)
    ensures
        returns_run(
            final(env)@,
            result,
            ask(old(env)@, Call::RegisterHolder { engine: token@.compliance_engine, addr }),
        ),
{
    let engine = read_compliance_engine(token);
    match env.call(Call::RegisterHolder { engine, addr })? {
        Reply::Failed => Err(Halt::Error(RwaError::ComplianceEngineUnavailable)),
        _ => Ok(()),
    }
}

/// Tells the engine that `addr` is no holder any more.
pub fn unregister_holder(token: &RwaToken, env: &mut Env, addr: Address) -> (result: Result<
    (),
    Halt,
>)
    ensures
        returns_run(
            final(env)@,
            result,
            ask(old(env)@, Call::UnregisterHolder { engine: token@.compliance_engine, addr }),
        ),
{
    let engine = read_compliance_engine(token);
    match env.call(Call::UnregisterHolder { engine, addr })? {
        Reply::Failed => Err(Halt::Error(RwaError::ComplianceEngineUnavailable)),
        _ => Ok(()),
    }
}

impl TokenView {
    /// Whether `addr` is frozen.
    pub open spec fn frozen_at(self, addr: Address) -> bool {
        self.frozen.contains_key(addr) && self.frozen[addr]
    }
}

/// Returns whether `addr` is frozen.
pub fn is_frozen(token: &RwaToken, addr: Address) -> (frozen: bool)
    ensures
        frozen == token@.frozen_at(addr),
{
    match token.frozen.get(&addr) {
        Some(frozen) => *frozen,
        None => false,
    }
}

/// Freezes or unfreezes `addr`.
pub fn set_frozen(token: &mut RwaToken, addr: Address, frozen: bool)
    ensures
        final(token)@ == (TokenView {
            frozen: old(token)@.frozen.insert(addr, frozen),
            ..old(token)@
        }),
{
    token.frozen.set(addr, frozen);
}

pub open spec fn freeze_steps(token: TokenView, caller: Address, addr: Address) -> Seq<Step> {
    role_steps(token, caller, ROLE_COMPLIANCE@) + seq![Step::Emit(Event::Freeze { addr })]
}

pub open spec fn unfreeze_steps(token: TokenView, caller: Address, addr: Address) -> Seq<Step> {
    role_steps(token, caller, ROLE_COMPLIANCE@) + seq![Step::Emit(Event::Unfreeze { addr })]
}

impl RwaToken {
    /// Returns the compliance engine.
    pub fn compliance_engine(&self) -> (engine: Address)
        ensures
            engine == self@.compliance_engine,
    {
        read_compliance_engine(self)
    }

    /// Freezes `addr`. `caller` must be the admin or the `"compliance"` role
    /// holder.
    pub fn freeze(&mut self, env: &mut Env, caller: Address, addr: Address) -> (result: Result<
        (),
        Halt,
    >)
        ensures
            settles(
                old(self)@,
                final(self)@,
                old(env)@,
                final(env)@,
                result,
                freeze_steps(old(self)@, caller, addr),
                (TokenView { frozen: old(self)@.frozen.insert(addr, true), ..old(self)@ }),
            ),
    {
        require_admin_or_role(self, env, caller, ROLE_COMPLIANCE)?;
        set_frozen(self, addr, true);
        emit_freeze(env, addr);
        Ok(())
    }

    /// Unfreezes `addr`. `caller` must be the admin or the `"compliance"` role
    /// holder.
    pub fn unfreeze(&mut self, env: &mut Env, caller: Address, addr: Address) -> (result: Result<
        (),
        Halt,
    >)
        ensures
            settles(
                old(self)@,
                final(self)@,
                old(env)@,
                final(env)@,
                result,
                unfreeze_steps(old(self)@, caller, addr),
                (TokenView { frozen: old(self)@.frozen.insert(addr, false), ..old(self)@ }),
            ),
    {
        require_admin_or_role(self, env, caller, ROLE_COMPLIANCE)?;
        set_frozen(self, addr, false);
        emit_unfreeze(env, addr);
        Ok(())
    }

    /// Returns whether `addr` is frozen.
    pub fn is_frozen(&self, addr: Address) -> (frozen: bool)
        ensures
            frozen == self@.frozen_at(addr),
    {
        is_frozen(self, addr)
    }
}

} // verus!
