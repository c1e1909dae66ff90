//! The admin, the two-step handover and the replay-protection nonce.

use vstd::prelude::*;

use crate::compliance::write_compliance_engine;
use crate::events::{
    emit_admin_accepted, emit_admin_proposed, emit_admin_set, emit_ce_updated, emit_kyc_updated,
    emit_pending_admin_cleared, Event,
};
use crate::host::{play, returns_run, Call, Env, Step};
use crate::roles::{require_admin_or_role, role_steps, ROLE_GOVERNANCE, ROLE_REGISTRY};
use crate::token::{settles, RwaToken, TokenView};
use crate::types::{Address, Halt, RwaError, Trap};

verus! {

broadcast use crate::host::group_play;

/// Stops unless the contract has an admin and the admin authorized the call.
pub open spec fn admin_steps(token: TokenView) -> Seq<Step> {
    seq![
        Step::Check(token.admin is Some, Halt::Error(RwaError::NotInitialized)),
        Step::Ask(Call::RequireAuth { addr: token.admin->0 }),
    ]
}

/// Stops unless `nonce` is the current admin nonce, with room for the next.
pub open spec fn nonce_steps(token: TokenView, nonce: u64) -> Seq<Step> {
    seq![
        Step::Check(nonce == token.admin_nonce, Halt::Error(RwaError::InvalidNonce)),
        Step::Check(nonce < u64::MAX, Halt::Trap(Trap::ArithmeticOverflow)),
    ]
}

/// The admin nonce once it was used.
pub open spec fn next_nonce(token: TokenView) -> u64 {
    (token.admin_nonce + 1) as u64
}

/// Returns the admin.
pub fn read_admin(token: &RwaToken) -> (admin: Result<Address, Halt>)
    ensures
        admin == (match token@.admin {
            Some(admin) => Ok::<Address, Halt>(admin),
            None => Err::<Address, Halt>(Halt::Error(RwaError::NotInitialized)),
        }),
{
    match token.admin {
        Some(admin) => Ok(admin),
        None => Err(Halt::Error(RwaError::NotInitialized)),
    }
}

/// Stops unless the admin authorized the call. Returns the admin.
pub fn require_admin(token: &RwaToken, env: &mut Env) -> (admin: Result<Address, Halt>)
    ensures
        returns_run(final(env)@, admin, play(admin_steps(token@), old(env)@)),
        admin matches Ok(admin) ==> token@.admin == Some(admin),
{
    reveal_with_fuel(play, 3);
    let admin = read_admin(token)?;
    env.require_auth(admin)?;
    Ok(admin)
}

/// Returns the nonce that follows `nonce`, if `nonce` is the current one.
pub fn consume_nonce(token: &RwaToken, nonce: u64) -> (next: Result<u64, Halt>)
    ensures
        next == (if nonce != token@.admin_nonce {
            Err::<u64, Halt>(Halt::Error(RwaError::InvalidNonce))
        } else if nonce == u64::MAX {
            Err::<u64, Halt>(Halt::Trap(Trap::ArithmeticOverflow))
        } else {
            Ok::<u64, Halt>(next_nonce(token@))
        }),
{
    if nonce != token.admin_nonce {
        return Err(Halt::Error(RwaError::InvalidNonce));
    }
    match nonce.checked_add(1) {
        Some(next) => Ok(next),
        None => Err(Halt::Trap(Trap::ArithmeticOverflow)),
    }
}

pub open spec fn set_admin_steps(token: TokenView, new_admin: Address) -> Seq<Step> {
    admin_steps(token).push(
        Step::Emit(Event::AdminSet { old_admin: token.admin->0, new_admin }),
    )
}

pub open spec fn propose_admin_steps(
    token: TokenView,
    caller: Address,
    new_admin: Address,
    nonce: u64,
) -> Seq<Step> {
    role_steps(token, caller, ROLE_GOVERNANCE@) + seq![
        Step::Check(token.admin != Some(new_admin), Halt::Error(RwaError::AlreadyAdmin)),
    ] + nonce_steps(token, nonce) + (if token.pending_admin is Some {
        seq![Step::Emit(Event::PendingAdminCleared)]
    } else {
        seq![]
    }) + seq![Step::Emit(Event::AdminProposed { new_admin, nonce })]
}

pub open spec fn accept_admin_steps(token: TokenView) -> Seq<Step> {
    seq![
        Step::Check(token.pending_admin is Some, Halt::Error(RwaError::NoPendingAdmin)),
        Step::Ask(Call::RequireAuth { addr: token.pending_admin->0 }),
        Step::Check(token.admin is Some, Halt::Error(RwaError::NotInitialized)),
        Step::Emit(
            Event::AdminAccepted {
                old_admin: token.admin->0,
                new_admin: token.pending_admin->0,
                nonce: token.admin_nonce,
            },
        ),
    ]
}

pub open spec fn update_kyc_registry_steps(
    token: TokenView,
    caller: Address,
    new_registry: Address,
    nonce: u64,
) -> Seq<Step> {
    role_steps(token, caller, ROLE_REGISTRY@) + nonce_steps(token, nonce) + seq![
        Step::Emit(Event::KycUpdated { new_registry, nonce }),
    ]
}

pub open spec fn update_compliance_engine_steps(
    token: TokenView,
    caller: Address,
    new_engine: Address,
    nonce: u64,
) -> Seq<Step> {
    role_steps(token, caller, ROLE_REGISTRY@) + nonce_steps(token, nonce) + seq![
        Step::Emit(Event::CeUpdated { new_engine, nonce }),
    ]
}

impl RwaToken {
    /// Replaces the admin in one step. Admin-only. The two-step handover of
    /// `propose_admin` and `accept_admin` is to be preferred.
    pub fn set_admin(&mut self, env: &mut Env, new_admin: Address) -> (result: Result<(), Halt>)
        ensures
            settles(
                old(self)@,
                final(self)@,
                old(env)@,
                final(env)@,
                result,
                set_admin_steps(old(self)@, new_admin),
                (TokenView { admin: Some(new_admin), ..old(self)@ }),
            ),
    {
        reveal_with_fuel(play, 3);
        let old_admin = require_admin(self, env)?;
        self.admin = Some(new_admin);
        emit_admin_set(env, old_admin, new_admin);
        Ok(())
    }

    /// First step of the admin handover. `caller` must be the admin or the
    /// `"governance"` role holder. The sitting admin cannot be proposed.
    #[verifier::rlimit(30)]
    pub fn propose_admin(
        &mut self,
        env: &mut Env,
        caller: Address,
        new_admin: Address,
        nonce: u64,
    ) -> (result: Result<(), Halt>)
        ensures
            settles(
                old(self)@,
                final(self)@,
                old(env)@,
                final(env)@,
                result,
                propose_admin_steps(old(self)@, caller, new_admin, nonce),
                (TokenView {
                    pending_admin: Some(new_admin),
                    admin_nonce: next_nonce(old(self)@),
                    ..old(self)@
                }),
            ),
    {
        reveal_with_fuel(play, 3);
        require_admin_or_role(self, env, caller, ROLE_GOVERNANCE)?;
        if read_admin(self)? == new_admin {
            return Err(Halt::Error(RwaError::AlreadyAdmin));
        }
        self.admin_nonce = consume_nonce(self, nonce)?;
        if self.pending_admin.is_some() {
            emit_pending_admin_cleared(env);
        }
        self.pending_admin = Some(new_admin);
        emit_admin_proposed(env, new_admin, nonce);
        Ok(())
    }

    /// Second step of the admin handover, taken by the proposed admin.
    pub fn accept_admin(&mut self, env: &mut Env) -> (result: Result<(), Halt>)
        ensures
            settles(
                old(self)@,
                final(self)@,
                old(env)@,
                final(env)@,
                result,
                accept_admin_steps(old(self)@),
                (TokenView {
                    admin: old(self)@.pending_admin,
                    pending_admin: None,
                    ..old(self)@
                }),
            ),
    {
        reveal_with_fuel(play, 5);
        let pending = match self.pending_admin {
            Some(pending) => pending,
            None => return Err(Halt::Error(RwaError::NoPendingAdmin)),
        };
        env.require_auth(pending)?;
        let old_admin = read_admin(self)?;
        self.admin = Some(pending);
        self.pending_admin = None;
        emit_admin_accepted(env, old_admin, pending, self.admin_nonce);
        Ok(())
    }

    /// Replaces the KYC registry. `caller` must be the admin or the
    /// `"registry"` role holder. Nonce-protected.
    pub fn update_kyc_registry(
        &mut self,
        env: &mut Env,
        caller: Address,
        new_registry: Address,
        nonce: u64,
    ) -> (result: Result<(), Halt>)
        ensures
            settles(
                old(self)@,
                final(self)@,
                old(env)@,
                final(env)@,
                result,
                update_kyc_registry_steps(old(self)@, caller, new_registry, nonce),
                (TokenView {
                    kyc_registry: new_registry,
                    admin_nonce: next_nonce(old(self)@),
                    ..old(self)@
                }),
            ),
    {
        reveal_with_fuel(play, 3);
        require_admin_or_role(self, env, caller, ROLE_REGISTRY)?;
        self.admin_nonce = consume_nonce(self, nonce)?;
        self.kyc_registry = new_registry;
        emit_kyc_updated(env, new_registry, nonce);
        Ok(())
    }

    /// Replaces the compliance engine. `caller` must be the admin or the
    /// `"registry"` role holder. Nonce-protected.
    pub fn update_compliance_engine(
        &mut self,
        env: &mut Env,
        caller: Address,
        new_engine: Address,
        nonce: u64,
    ) -> (result: Result<(), Halt>)
        ensures
            settles(
                old(self)@,
                final(self)@,
                old(env)@,
                final(env)@,
                result,
                update_compliance_engine_steps(old(self)@, caller, new_engine, nonce),
                (TokenView {
                    compliance_engine: new_engine,
                    admin_nonce: next_nonce(old(self)@),
                    ..old(self)@
                }),
            ),
    {
        reveal_with_fuel(play, 3);
        require_admin_or_role(self, env, caller, ROLE_REGISTRY)?;
        self.admin_nonce = consume_nonce(self, nonce)?;
        write_compliance_engine(self, new_engine);
        emit_ce_updated(env, new_engine, nonce);
        Ok(())
    }

    /// Returns the current admin nonce, which every nonce-protected operation
    /// has to be given.
    pub fn admin_nonce(&self) -> (nonce: u64)
        ensures
            nonce == self@.admin_nonce,
    {
        self.admin_nonce
    }
}

} // verus!
