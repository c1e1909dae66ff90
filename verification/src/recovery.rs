//! Recovery of the admin role by a majority of guardians.

use vstd::prelude::*;

use crate::admin::{admin_steps, next_nonce, read_admin, require_admin};
use crate::events::{
    emit_recovery_approved, emit_recovery_cancelled, emit_recovery_configured,
    emit_recovery_executed, emit_recovery_proposed, Event,
};
use crate::host::{play, Call, Env, Step};
use crate::token::{settles, RwaToken, TokenView};
use crate::types::{
    contains_address, copy_list, Address, Halt, ProposalView, RecoveryConfig, RecoveryProposal,
    RwaError, Trap,
};

verus! {

broadcast use crate::host::group_play;

/// The largest number of guardians.
pub const MAX_GUARDIANS: usize = 10;

/// How many guardians can approve a proposal of `proposer`, who cannot.
pub open spec fn reachable(members: Seq<Address>, proposer: Address) -> nat {
    members.to_set().remove(proposer).len()
}

/// The last ledger at which a proposal made at `sequence` is live.
pub open spec fn proposal_expiry(config: RecoveryConfig, sequence: u32) -> u64 {
    (sequence + config.cooldown_ledgers / 2) as u64
}

/// Stops unless recovery is configured and `caller` is a guardian.
pub open spec fn guardian_steps(token: TokenView, caller: Address) -> Seq<Step> {
    seq![
        Step::Check(
            token.recovery_members is Some,
            Halt::Error(RwaError::RecoveryNotConfigured),
        ),
        Step::Check(
            token.recovery_members->0.contains(caller),
            Halt::Error(RwaError::NotRecoveryMember),
        ),
    ]
}

/// Stops unless there is a proposal that has not expired.
pub open spec fn live_proposal_steps(token: TokenView, sequence: u32) -> Seq<Step> {
    seq![
        Step::Check(token.active_recovery is Some, Halt::Error(RwaError::NoActiveRecovery)),
        Step::Check(
            sequence <= token.active_recovery->0.expiry_ledger,
            Halt::Error(RwaError::RecoveryExpired),
        ),
    ]
}

pub open spec fn configure_recovery_steps(
    token: TokenView,
    threshold: u32,
    members: Seq<Address>,
) -> Seq<Step> {
    admin_steps(token) + seq![
        Step::Check(
            2 <= threshold <= members.len() <= MAX_GUARDIANS,
            Halt::Error(RwaError::InvalidRecoveryConfig),
        ),
        Step::Emit(
            Event::RecoveryConfigured { threshold, member_count: members.len() as u32 },
        ),
    ]
}

/// The token after recovery was configured. The last execution is kept, and a
/// proposal made under the old configuration is gone.
pub open spec fn recovery_configured(
    token: TokenView,
    threshold: u32,
    members: Seq<Address>,
    cooldown: u32,
) -> TokenView {
    TokenView {
        recovery_config: Some(
            RecoveryConfig {
                threshold,
                cooldown_ledgers: cooldown,
                last_executed_ledger: match token.recovery_config {
                    Some(config) => config.last_executed_ledger,
                    None => 0,
                },
            },
        ),
        recovery_members: Some(members),
        recovery_threshold: Some(threshold),
        active_recovery: None,
        ..token
    }
}

pub open spec fn propose_recovery_steps(
    token: TokenView,
    caller: Address,
    proposed_admin: Address,
    sequence: u32,
) -> Seq<Step> {
    let config = token.recovery_config->0;
    seq![
        Step::Ask(Call::RequireAuth { addr: caller }),
        Step::Check(
            token.recovery_config is Some,
            Halt::Error(RwaError::RecoveryNotConfigured),
        ),
    ] + guardian_steps(token, caller) + seq![
        Step::Check(
            config.threshold <= reachable(token.recovery_members->0, caller),
            Halt::Error(RwaError::InvalidRecoveryConfig),
        ),
        Step::Check(
            token.active_recovery is None || sequence > token.active_recovery->0.expiry_ledger,
            Halt::Error(RwaError::RecoveryAlreadyActive),
        ),
        Step::Emit(
            Event::RecoveryProposed {
                proposed_admin,
                expiry_ledger: proposal_expiry(config, sequence),
            },
        ),
    ]
}

/// The token after `caller` opened a proposal.
pub open spec fn recovery_proposed(
    token: TokenView,
    caller: Address,
    proposed_admin: Address,
    sequence: u32,
) -> TokenView {
    TokenView {
        active_recovery: Some(
            ProposalView {
                proposed_admin,
                proposer: caller,
                approvals: Seq::empty(),
                expiry_ledger: proposal_expiry(token.recovery_config->0, sequence),
            },
        ),
        ..token
    }
}

pub open spec fn approve_recovery_steps(
    token: TokenView,
    caller: Address,
    sequence: u32,
) -> Seq<Step> {
    let proposal = token.active_recovery->0;
    seq![Step::Ask(Call::RequireAuth { addr: caller })] + guardian_steps(token, caller)
        + live_proposal_steps(token, sequence) + seq![
        Step::Check(
            caller != proposal.proposer,
            Halt::Error(RwaError::ProposerCannotApprove),
        ),
        Step::Check(
            !proposal.approvals.contains(caller),
            Halt::Error(RwaError::AlreadyApproved),
        ),
        Step::Check(
            proposal.approvals.len() < u32::MAX,
            Halt::Trap(Trap::ArithmeticOverflow),
        ),
        Step::Emit(
            Event::RecoveryApproved {
                approver: caller,
                approval_count: (proposal.approvals.len() + 1) as u32,
            },
        ),
    ]
}

/// The token after `caller` approved the active proposal.
pub open spec fn recovery_approved(token: TokenView, caller: Address) -> TokenView {
    let proposal = token.active_recovery->0;
    TokenView {
        active_recovery: Some(
            ProposalView { approvals: proposal.approvals.push(caller), ..proposal },
        ),
        ..token
    }
}

pub open spec fn execute_recovery_steps(
    token: TokenView,
    caller: Address,
    sequence: u32,
) -> Seq<Step> {
    let config = token.recovery_config->0;
    let proposal = token.active_recovery->0;
    seq![
        Step::Ask(Call::RequireAuth { addr: caller }),
        Step::Check(
            token.recovery_config is Some,
            Halt::Error(RwaError::RecoveryNotConfigured),
        ),
    ] + guardian_steps(token, caller) + live_proposal_steps(token, sequence) + seq![
        Step::Check(
            proposal.approvals.len() >= config.threshold,
            Halt::Error(RwaError::InsufficientApprovals),
        ),
        Step::Check(
            config.last_executed_ledger + config.cooldown_ledgers <= u64::MAX,
            Halt::Trap(Trap::ArithmeticOverflow),
        ),
        Step::Check(
            sequence >= config.last_executed_ledger + config.cooldown_ledgers,
            Halt::Error(RwaError::RecoveryCooldown),
        ),
        Step::Check(token.admin is Some, Halt::Error(RwaError::NotInitialized)),
        Step::Check(token.admin_nonce < u64::MAX, Halt::Trap(Trap::ArithmeticOverflow)),
        Step::Emit(
            Event::RecoveryExecuted {
                old_admin: token.admin->0,
                new_admin: proposal.proposed_admin,
            },
        ),
    ]
}

/// The token after the active proposal was executed at `sequence`.
pub open spec fn recovery_executed(token: TokenView, sequence: u32) -> TokenView {
    TokenView {
        admin: Some(token.active_recovery->0.proposed_admin),
        admin_nonce: next_nonce(token),
        active_recovery: None,
        recovery_config: Some(
            RecoveryConfig { last_executed_ledger: sequence as u64, ..token.recovery_config->0 },
        ),
        ..token
    }
}

pub open spec fn cancel_recovery_steps(token: TokenView) -> Seq<Step> {
    admin_steps(token) + seq![
        Step::Check(token.active_recovery is Some, Halt::Error(RwaError::NoActiveRecovery)),
        Step::Emit(Event::RecoveryCancelled),
    ]
}

/// Counts the guardians that can approve a proposal of `proposer`.
fn reachable_approvals(members: &Vec<Address>, proposer: Address) -> (count: usize)
    ensures
        count == reachable(members@, proposer),
{
    let mut others: Vec<Address> = Vec::new();
    let mut i: usize = 0;
    assert(members@.take(0) =~= seq![]);
    assert(others@.to_set() =~= members@.take(0).to_set().remove(proposer));
    while i < members.len()
        invariant
            i <= members.len(),
            others@.no_duplicates(),
            others@.to_set() == members@.take(i as int).to_set().remove(proposer),
        decreases members.len() - i,
    {
        let member = members[i];
        proof {
            assert(members@.take(i + 1) =~= members@.take(i as int).push(member));
            members@.take(i as int).lemma_push_to_set_commute(member);
            others@.lemma_push_to_set_commute(member);
        }
        if member != proposer && !contains_address(&others, member) {
            others.push(member);
        }
        assert(others@.to_set() =~= members@.take(i + 1).to_set().remove(proposer));
        i = i + 1;
    }
    proof {
        assert(members@.take(i as int) =~= members@);
        others@.unique_seq_to_set();
    }
    others.len()
}

impl RwaToken {
    fn read_recovery_config(&self) -> (config: Result<RecoveryConfig, Halt>)
        ensures
            config == (match self@.recovery_config {
                Some(config) => Ok::<RecoveryConfig, Halt>(config),
                None => Err::<RecoveryConfig, Halt>(
                    Halt::Error(RwaError::RecoveryNotConfigured),
                ),
            }),
    {
        match self.recovery_config {
            Some(config) => Ok(config),
            None => Err(Halt::Error(RwaError::RecoveryNotConfigured)),
        }
    }

    fn read_recovery_members(&self) -> (members: Result<&Vec<Address>, Halt>)
        ensures
            match members {
                Ok(members) => self@.recovery_members == Some(members@),
                Err(halt) => self@.recovery_members is None && halt == Halt::Error(
                    RwaError::RecoveryNotConfigured,
                ),
            },
    {
        match &self.recovery_members {
            Some(members) => Ok(members),
            None => Err(Halt::Error(RwaError::RecoveryNotConfigured)),
        }
    }

    fn assert_recovery_member(addr: Address, members: &Vec<Address>) -> (result: Result<(), Halt>)
        ensures
            result == (if members@.contains(addr) {
                Ok::<(), Halt>(())
            } else {
                Err::<(), Halt>(Halt::Error(RwaError::NotRecoveryMember))
            }),
    {
        if !contains_address(members, addr) {
            return Err(Halt::Error(RwaError::NotRecoveryMember));
        }
        Ok(())
    }

    /// Configures recovery by `threshold` of the guardians `members`.
    /// Admin-only. The threshold is at least two, and there are at most ten
    /// guardians. An open proposal is dropped.
    pub fn configure_recovery(
        &mut self,
        env: &mut Env,
        threshold: u32,
        members: Vec<Address>,
        cooldown: u32,
    ) -> (result: Result<(), Halt>)
        ensures
            settles(
                old(self)@,
                final(self)@,
                old(env)@,
                final(env)@,
                result,
                configure_recovery_steps(old(self)@, threshold, members@),
                recovery_configured(old(self)@, threshold, members@, cooldown),
            ),
    {
        reveal_with_fuel(play, 3);
        require_admin(self, env)?;
        let n: usize = members.len();
        if threshold < 2 || threshold as usize > n || n > MAX_GUARDIANS {
            return Err(Halt::Error(RwaError::InvalidRecoveryConfig));
        }
        let last_executed_ledger: u64 = match self.recovery_config {
            Some(config) => config.last_executed_ledger,
            None => 0,
        };
        self.recovery_config = Some(
            RecoveryConfig { threshold, cooldown_ledgers: cooldown, last_executed_ledger },
        );
        self.recovery_members = Some(members);
        self.recovery_threshold = Some(threshold);
        self.active_recovery = None;
        emit_recovery_configured(env, threshold, n as u32);
        Ok(())
    }

    /// Opens a recovery proposal, which lives for half the cooldown.
    /// Guardian-only. A live proposal cannot be replaced, and the guardians
    /// other than the proposer must be able to reach the threshold.
    #[verifier::rlimit(30)]
    pub fn propose_recovery(
        &mut self,
        env: &mut Env,
        caller: Address,
        proposed_admin: Address,
    ) -> (result: Result<(), Halt>)
        ensures
            settles(
                old(self)@,
                final(self)@,
                old(env)@,
                final(env)@,
                result,
                propose_recovery_steps(
                    old(self)@,
                    caller,
                    proposed_admin,
                    old(env)@.sequence,
                ),
                recovery_proposed(old(self)@, caller, proposed_admin, old(env)@.sequence),
            ),
    {
        reveal_with_fuel(play, 4);
        env.require_auth(caller)?;
        let config = self.read_recovery_config()?;
        let members = self.read_recovery_members()?;
        Self::assert_recovery_member(caller, members)?;
        if (config.threshold as usize) > reachable_approvals(members, caller) {
            return Err(Halt::Error(RwaError::InvalidRecoveryConfig));
        }
        if let Some(active) = &self.active_recovery {
            if env.sequence as u64 <= active.expiry_ledger {
                return Err(Halt::Error(RwaError::RecoveryAlreadyActive));
            }
        }
        let expiry_ledger: u64 = env.sequence as u64 + (config.cooldown_ledgers / 2) as u64;
        self.active_recovery = Some(
            RecoveryProposal {
                proposed_admin,
                proposer: caller,
                approvals: Vec::new(),
                expiry_ledger,
            },
        );
        emit_recovery_proposed(env, proposed_admin, expiry_ledger);
        Ok(())
    }

    /// Adds the approval of `caller` to the active proposal. Guardian-only.
    /// Nobody approves twice, and the proposer not at all.
    #[verifier::rlimit(30)]
    pub fn approve_recovery(&mut self, env: &mut Env, caller: Address) -> (result: Result<
        (),
        Halt,
    >)
        ensures
            settles(
                old(self)@,
                final(self)@,
                old(env)@,
                final(env)@,
                result,
                approve_recovery_steps(old(self)@, caller, old(env)@.sequence),
                recovery_approved(old(self)@, caller),
            ),
    {
        reveal_with_fuel(play, 5);
        env.require_auth(caller)?;
        let members = self.read_recovery_members()?;
        Self::assert_recovery_member(caller, members)?;
        let proposal = match &self.active_recovery {
            Some(proposal) => proposal,
            None => return Err(Halt::Error(RwaError::NoActiveRecovery)),
        };
        if env.sequence as u64 > proposal.expiry_ledger {
            return Err(Halt::Error(RwaError::RecoveryExpired));
        }
        if caller == proposal.proposer {
            return Err(Halt::Error(RwaError::ProposerCannotApprove));
        }
        if contains_address(&proposal.approvals, caller) {
            return Err(Halt::Error(RwaError::AlreadyApproved));
        }
        if proposal.approvals.len() >= u32::MAX as usize {
            return Err(Halt::Trap(Trap::ArithmeticOverflow));
        }
        let mut approvals = copy_list(&proposal.approvals);
        approvals.push(caller);
        let count: u32 = approvals.len() as u32;
        self.active_recovery = Some(
            RecoveryProposal {
                proposed_admin: proposal.proposed_admin,
                proposer: proposal.proposer,
                approvals,
                expiry_ledger: proposal.expiry_ledger,
            },
        );
        emit_recovery_approved(env, caller, count);
        Ok(())
    }

    /// Makes the proposed admin the admin, once enough guardians approved and
    /// the cooldown has elapsed. Any guardian may call this. The admin nonce
    /// moves on, so that operations prepared before are void.
    #[verifier::rlimit(30)]
    pub fn execute_recovery(&mut self, env: &mut Env, caller: Address) -> (result: Result<
        (),
        Halt,
    >)
        ensures
            settles(
                old(self)@,
                final(self)@,
                old(env)@,
                final(env)@,
                result,
                execute_recovery_steps(old(self)@, caller, old(env)@.sequence),
                recovery_executed(old(self)@, old(env)@.sequence),
            ),
    {
        reveal_with_fuel(play, 7);
        env.require_auth(caller)?;
        let config = self.read_recovery_config()?;
        let members = self.read_recovery_members()?;
        Self::assert_recovery_member(caller, members)?;
        let (new_admin, expiry_ledger, approval_count) = match &self.active_recovery {
            Some(proposal) => (
                proposal.proposed_admin,
                proposal.expiry_ledger,
                proposal.approvals.len(),
            ),
            None => return Err(Halt::Error(RwaError::NoActiveRecovery)),
        };
        let sequence: u64 = env.sequence as u64;
        if sequence > expiry_ledger {
            return Err(Halt::Error(RwaError::RecoveryExpired));
        }
        if approval_count < config.threshold as usize {
            return Err(Halt::Error(RwaError::InsufficientApprovals));
        }
        let earliest = match config.last_executed_ledger.checked_add(
            config.cooldown_ledgers as u64,
        ) {
            Some(earliest) => earliest,
            None => return Err(Halt::Trap(Trap::ArithmeticOverflow)),
        };
        if sequence < earliest {
            return Err(Halt::Error(RwaError::RecoveryCooldown));
        }
        let old_admin = read_admin(self)?;
        let nonce = match self.admin_nonce.checked_add(1) {
            Some(nonce) => nonce,
            None => return Err(Halt::Trap(Trap::ArithmeticOverflow)),
        };
        self.admin = Some(new_admin);
        self.admin_nonce = nonce;
        self.active_recovery = None;
        self.recovery_config = Some(
            RecoveryConfig {
                threshold: config.threshold,
                cooldown_ledgers: config.cooldown_ledgers,
                last_executed_ledger: sequence,
            },
        );
        emit_recovery_executed(env, old_admin, new_admin);
        Ok(())
    }

    /// Drops the active proposal. Admin-only.
    pub fn cancel_recovery(&mut self, env: &mut Env) -> (result: Result<(), Halt>)
        ensures
            settles(
                old(self)@,
                final(self)@,
                old(env)@,
                final(env)@,
                result,
                cancel_recovery_steps(old(self)@),
                (TokenView { active_recovery: None, ..old(self)@ }),
            ),
    {
        reveal_with_fuel(play, 3);
        require_admin(self, env)?;
        if self.active_recovery.is_none() {
            return Err(Halt::Error(RwaError::NoActiveRecovery));
        }
        self.active_recovery = None;
        emit_recovery_cancelled(env);
        Ok(())
    }

    /// Returns the recovery configuration.
    pub fn recovery_config(&self) -> (config: Result<RecoveryConfig, Halt>)
        ensures
            config == (match self@.recovery_config {
                Some(config) => Ok::<RecoveryConfig, Halt>(config),
                None => Err::<RecoveryConfig, Halt>(
                    Halt::Error(RwaError::RecoveryNotConfigured),
                ),
            }),
    {
        self.read_recovery_config()
    }

    /// Returns the guardians.
    pub fn recovery_members(&self) -> (members: Result<Vec<Address>, Halt>)
        ensures
            match members {
                Ok(members) => self@.recovery_members == Some(members@),
                Err(halt) => self@.recovery_members is None && halt == Halt::Error(
                    RwaError::RecoveryNotConfigured,
                ),
            },
    {
        let members = self.read_recovery_members()?;
        Ok(copy_list(members))
    }

    /// Returns the active proposal, if there is one.
    pub fn active_recovery(&self) -> (proposal: Option<RecoveryProposal>)
        ensures
            self@.active_recovery == (match proposal {
                Some(proposal) => Some(proposal@),
                None => None,
            }),
    {
        match &self.active_recovery {
            Some(proposal) => Some(
                RecoveryProposal {
                    proposed_admin: proposal.proposed_admin,
                    proposer: proposal.proposer,
                    approvals: copy_list(&proposal.approvals),
                    expiry_ledger: proposal.expiry_ledger,
                },
            ),
            None => None,
        }
    }
}

} // verus!
