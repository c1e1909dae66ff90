//! What the answer to each call decides.

use vstd::prelude::*;

use crate::compliance::{DenyReason, TransferDecision};
use crate::host::{ask, objection, Call, Effect, EnvView, Reply};
use crate::types::{Halt, RwaError, Trap};

verus! {

/// What the answer at position `k` of an inbox decides for a call: `None` is
/// an agreement. Without an answer the call is still open.
pub open spec fn verdict(call: Call, inbox: Seq<Reply>, k: int) -> Option<Halt> {
    if inbox.len() <= k {
        Some(Halt::Pending)
    } else {
        match (call, inbox[k]) {
            (Call::RequireAuth { .. }, Reply::Done) => None,
            (Call::RequireAuth { .. }, _) => Some(Halt::Trap(Trap::Unauthorized)),
            (Call::IsApproved { .. }, Reply::Flag(approved)) => if approved {
                None
            } else {
                Some(Halt::Error(RwaError::KycNotApproved))
            },
            (Call::GetRecord { .. }, Reply::Record(_)) => None,
            (Call::IsApproved { .. } | Call::GetRecord { .. }, _) => Some(
                Halt::Error(RwaError::KycRegistryUnavailable),
            ),
            (Call::EvaluateTransfer { .. }, Reply::Decision(TransferDecision::Allow)) => None,
            (
                Call::EvaluateTransfer { .. },
                Reply::Decision(TransferDecision::Deny(reason)),
            ) => match reason {
                DenyReason::FromKycMissing
                | DenyReason::ToKycMissing
                | DenyReason::FromKycExpired
                | DenyReason::ToKycExpired
                | DenyReason::FromKycRevoked
                | DenyReason::ToKycRevoked
                | DenyReason::FromKycRejected
                | DenyReason::ToKycRejected
                | DenyReason::FromKycPending
                | DenyReason::ToKycPending => Some(Halt::Error(RwaError::KycNotApproved)),
                _ => Some(Halt::Error(RwaError::TransferBlocked)),
            },
            (Call::CanTransfer { .. }, Reply::Flag(allowed)) => if allowed {
                None
            } else {
                Some(Halt::Error(RwaError::TransferBlocked))
            },
            (Call::GetRules { .. }, Reply::Rules(_)) => None,
            (Call::HolderCount { .. }, Reply::Count(_)) => None,
            (Call::RegisterHolder { .. } | Call::UnregisterHolder { .. }, reply) => if reply
                == Reply::Failed {
                Some(Halt::Error(RwaError::ComplianceEngineUnavailable))
            } else {
                None
            },
            _ => Some(Halt::Error(RwaError::ComplianceEngineUnavailable)),
        }
    }
}

/// A call is logged, the first answer of the inbox is used up for it, and that
/// answer decides how it ends.
pub proof fn the_first_answer_decides(env: EnvView, call: Call)
    ensures
        ask(env, call).halt == verdict(call, env.inbox, 0),
        ask(env, call).env.log == env.log.push(Effect::Call(call)),
        env.inbox.len() > 0 ==> ask(env, call).env.inbox == env.inbox.skip(1),
        env.inbox.len() == 0 ==> ask(env, call).env.inbox == env.inbox,
        ask(env, call).env.sequence == env.sequence,
        ask(env, call).env.timestamp == env.timestamp,
        ask(env, call).env.contract == env.contract,
        env.inbox.len() > 0 ==> objection(call, env.inbox[0]) == verdict(call, env.inbox, 0),
{
}

} // verus!
