//! Granular roles beside the admin.

use vstd::prelude::*;

use crate::admin::{admin_steps, consume_nonce, next_nonce, nonce_steps, read_admin, require_admin};
use crate::events::{emit_role_assigned, emit_role_revoked, Event};
use crate::host::{play, returns_run, Call, Env, Step};
use crate::token::{settles, RwaToken, TokenView};
use crate::types::{Address, Halt, RwaError};

verus! {

broadcast use crate::host::group_play;

pub const ROLE_GOVERNANCE: &'static str = "governance";

pub const ROLE_COMPLIANCE: &'static str = "compliance";

pub const ROLE_LIQUIDITY: &'static str = "liquidity";

pub const ROLE_REGISTRY: &'static str = "registry";

/// Whether `caller` is the admin or holds `role`.
pub open spec fn has_authority(token: TokenView, caller: Address, role: Seq<char>) -> bool {
    ||| token.admin == Some(caller)
    ||| token.roles.contains_key(role) && token.roles[role] == caller
}

/// Stops unless `caller` authorized the call and is the admin or holds `role`.
pub open spec fn role_steps(token: TokenView, caller: Address, role: Seq<char>) -> Seq<Step> {
    seq![
        Step::Ask(Call::RequireAuth { addr: caller }),
        Step::Check(token.admin is Some, Halt::Error(RwaError::NotInitialized)),
        Step::Check(
            has_authority(token, caller, role),
            Halt::Error(RwaError::UnauthorizedRole),
        ),
    ]
}

/// Stops unless `caller` authorized the call and is the admin or holds `role`.
pub fn require_admin_or_role(
    token: &RwaToken,
    env: &mut Env,
    caller: Address,
    role: &str,
) -> (result: Result<(), Halt>)
    ensures
        returns_run(final(env)@, result, play(role_steps(token@, caller, role@), old(env)@)),
{
    reveal_with_fuel(play, 4);
    env.require_auth(caller)?;
    if caller == read_admin(token)? {
        return Ok(());
    }
    match token.roles.get(&role.to_owned()) {
        Some(holder) => if *holder == caller {
            Ok(())
        } else {
            Err(Halt::Error(RwaError::UnauthorizedRole))
        },
        None => Err(Halt::Error(RwaError::UnauthorizedRole)),
    }
}

pub open spec fn assign_role_steps(
    token: TokenView,
    role: String,
    holder: Address,
    nonce: u64,
) -> Seq<Step> {
    admin_steps(token) + nonce_steps(token, nonce) + seq![
        Step::Emit(Event::RoleAssigned { role, holder, nonce }),
    ]
}

pub open spec fn revoke_role_steps(token: TokenView, role: String, nonce: u64) -> Seq<Step> {
    admin_steps(token) + nonce_steps(token, nonce) + seq![
        Step::Emit(Event::RoleRevoked { role, nonce }),
    ]
}

impl RwaToken {
    /// Makes `holder` the holder of `role`. Admin-only, nonce-protected.
    pub fn assign_role(
        &mut self,
        env: &mut Env,
        role: String,
        holder: Address,
        nonce: u64,
    ) -> (result: Result<(), Halt>)
        ensures
            settles(
                old(self)@,
                final(self)@,
                old(env)@,
                final(env)@,
                result,
                assign_role_steps(old(self)@, role, holder, nonce),
                (TokenView {
                    roles: old(self)@.roles.insert(role@, holder),
                    admin_nonce: next_nonce(old(self)@),
                    ..old(self)@
                }),
            ),
    {
        reveal_with_fuel(play, 3);
        require_admin(self, env)?;
        self.admin_nonce = consume_nonce(self, nonce)?;
        self.roles.set(role.clone(), holder);
        emit_role_assigned(env, role, holder, nonce);
        Ok(())
    }

    /// Takes `role` from its holder. Admin-only, nonce-protected.
    pub fn revoke_role(&mut self, env: &mut Env, role: String, nonce: u64) -> (result: Result<
        (),
        Halt,
    >)
        ensures
            settles(
                old(self)@,
                final(self)@,
                old(env)@,
                final(env)@,
                result,
                revoke_role_steps(old(self)@, role, nonce),
                (TokenView {
                    roles: old(self)@.roles.remove(role@),
                    admin_nonce: next_nonce(old(self)@),
                    ..old(self)@
                }),
            ),
    {
        reveal_with_fuel(play, 3);
        require_admin(self, env)?;
        self.admin_nonce = consume_nonce(self, nonce)?;
        self.roles.remove(&role);
        emit_role_revoked(env, role, nonce);
        Ok(())
    }

    /// Returns the holder of `role`, or `None` if nobody holds it.
    pub fn get_role_holder(&self, role: String) -> (holder: Option<Address>)
        ensures
            holder == (if self@.roles.contains_key(role@) {
                Some(self@.roles[role@])
            } else {
                None
            }),
    {
        match self.roles.get(&role) {
            Some(holder) => Some(*holder),
            None => None,
        }
    }
}

} // verus!
