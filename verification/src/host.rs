//! The token's surroundings: the ledger, the calls that it makes to other
//! contracts, their answers, and the events that it publishes.
//!
//! An operation makes its calls in a fixed order. It takes each answer from
//! the front of the inbox and logs each call and event. Where the inbox is
//! empty it stops with [`Halt::Pending`]: the last entry of the log is the
//! call to make. Running the operation again, with all answers so far in the
//! inbox, takes it one call further.

use vstd::prelude::*;

use crate::compliance::{ComplianceRulesMirror, DenyReason, TransferDecision};
use crate::events::Event;
use crate::kyc::KycRecord;
use crate::types::{Address, Halt, RwaError, Trap};

verus! {

/// A call out of the token contract.
#[derive(Clone, Copy, Debug, PartialEq, Eq, Structural)]
pub enum Call {
    /// `addr` must have authorized the running invocation.
    RequireAuth { addr: Address },
    /// Asks the KYC registry whether `addr` is approved now.
    IsApproved { registry: Address, addr: Address },
    /// Fetches the record of `addr` from the KYC registry.
    GetRecord { registry: Address, addr: Address },
    /// Evaluates a transfer against all rules of the compliance engine.
    EvaluateTransfer { engine: Address, from: Address, to: Address, amount: i128 },
    /// Evaluates a transfer against the engine's rules, KYC left out.
    CanTransfer { engine: Address, from: Address, to: Address, amount: i128 },
    /// Fetches the rules of the compliance engine.
    GetRules { engine: Address },
    /// Fetches the number of holders that the compliance engine counts.
    HolderCount { engine: Address },
    /// Tells the compliance engine that `addr` became a holder.
    RegisterHolder { engine: Address, addr: Address },
    /// Tells the compliance engine that `addr` is no holder any more.
    UnregisterHolder { engine: Address, addr: Address },
}

/// The answer to a call.
#[derive(Clone, Debug, PartialEq, Eq)]
pub enum Reply {
    /// The call trapped or the contract could not be reached.
    Failed,
    /// The call returned nothing.
    Done,
    Flag(bool),
    Count(u32),
    Decision(TransferDecision),
    Rules(ComplianceRulesMirror),
    Record(KycRecord),
}

/// An entry of the log.
#[derive(Clone, Debug, PartialEq, Eq)]
pub enum Effect {
    Call(Call),
    Event(Event),
}

/// What an operation sees of its surroundings, and the log that it leaves.
#[derive(Clone, Debug, PartialEq, Eq)]
pub struct Env {
    /// The sequence number of the current ledger.
    pub sequence: u32,
    /// The timestamp of the current ledger, in seconds.
    pub timestamp: u64,
    /// The address of the token contract itself.
    pub contract: Address,
    /// The answers that have not been used yet, first one first.
    pub inbox: Vec<Reply>,
    /// The calls and events so far.
    pub log: Vec<Effect>,
}

/// The value of an [`Env`].
#[verifier::ext_equal]
pub struct EnvView {
    pub sequence: u32,
    pub timestamp: u64,
    pub contract: Address,
    pub inbox: Seq<Reply>,
    pub log: Seq<Effect>,
}

impl View for Env {
    type V = EnvView;

    open spec fn view(&self) -> EnvView {
        EnvView {
            sequence: self.sequence,
            timestamp: self.timestamp,
            contract: self.contract,
            inbox: self.inbox@,
            log: self.log@,
        }
    }
}

impl EnvView {
    /// The surroundings after an event was published.
    pub open spec fn publish(self, event: Event) -> EnvView {
        EnvView { log: self.log.push(Effect::Event(event)), ..self }
    }

    /// The surroundings after a call was made: it is logged, and its answer
    /// is used up.
    pub open spec fn called(self, call: Call) -> EnvView {
        EnvView {
            log: self.log.push(Effect::Call(call)),
            inbox: if self.inbox.len() == 0 {
                self.inbox
            } else {
                self.inbox.drop_first()
            },
            ..self
        }
    }
}

/// Whether a denial is about the KYC state of one of the parties.
pub open spec fn about_kyc(reason: DenyReason) -> bool {
    ||| reason is FromKycMissing
    ||| reason is ToKycMissing
    ||| reason is FromKycExpired
    ||| reason is ToKycExpired
    ||| reason is FromKycRevoked
    ||| reason is ToKycRevoked
    ||| reason is FromKycRejected
    ||| reason is ToKycRejected
    ||| reason is FromKycPending
    ||| reason is ToKycPending
}

/// What the answer to a call means: `None` lets the operation go on.
///
/// An answer of the wrong kind counts as a failed call, except that any
/// answer at all acknowledges a holder registration.
pub open spec fn objection(call: Call, reply: Reply) -> Option<Halt> {
    match call {
        Call::RequireAuth { .. } => match reply {
            Reply::Done => None,
            _ => Some(Halt::Trap(Trap::Unauthorized)),
        },
        Call::IsApproved { .. } => match reply {
            Reply::Flag(true) => None,
            Reply::Flag(false) => Some(Halt::Error(RwaError::KycNotApproved)),
            _ => Some(Halt::Error(RwaError::KycRegistryUnavailable)),
        },
        Call::GetRecord { .. } => match reply {
            Reply::Record(_) => None,
            _ => Some(Halt::Error(RwaError::KycRegistryUnavailable)),
        },
        Call::EvaluateTransfer { .. } => match reply {
            Reply::Decision(TransferDecision::Allow) => None,
            Reply::Decision(TransferDecision::Deny(reason)) => if about_kyc(reason) {
                Some(Halt::Error(RwaError::KycNotApproved))
            } else {
                Some(Halt::Error(RwaError::TransferBlocked))
            },
            _ => Some(Halt::Error(RwaError::ComplianceEngineUnavailable)),
        },
        Call::CanTransfer { .. } => match reply {
            Reply::Flag(true) => None,
            Reply::Flag(false) => Some(Halt::Error(RwaError::TransferBlocked)),
            _ => Some(Halt::Error(RwaError::ComplianceEngineUnavailable)),
        },
        Call::GetRules { .. } => match reply {
            Reply::Rules(_) => None,
            _ => Some(Halt::Error(RwaError::ComplianceEngineUnavailable)),
        },
        Call::HolderCount { .. } => match reply {
            Reply::Count(_) => None,
            _ => Some(Halt::Error(RwaError::ComplianceEngineUnavailable)),
        },
        Call::RegisterHolder { .. } | Call::UnregisterHolder { .. } => match reply {
            Reply::Failed => Some(Halt::Error(RwaError::ComplianceEngineUnavailable)),
            _ => None,
        },
    }
}

/// Surroundings at some point of an operation, and whether it stopped there.
pub struct Run {
    pub env: EnvView,
    pub halt: Option<Halt>,
}

/// One step of an operation.
pub enum Step {
    /// Stops with the given reason unless the condition holds.
    Check(bool, Halt),
    /// Makes a call and stops if its answer objects.
    Ask(Call),
    /// Stops unless the engine's holder cap leaves room for the newcomers.
    Capacity { engine: Address, newcomers: nat, sender_leaves: bool },
    /// Publishes an event.
    Emit(Event),
}

/// Makes a call and stops if its answer objects.
pub open spec fn ask(env: EnvView, call: Call) -> Run {
    Run {
        env: env.called(call),
        halt: if env.inbox.len() == 0 {
            Some(Halt::Pending)
        } else {
            objection(call, env.inbox[0])
        },
    }
}

/// The holder count once the newcomers are in and the sender's slot, if it is
/// given up, is free again. Counts stay in the range of a `u32`.
pub open spec fn projected_holders(current: u32, newcomers: nat, sender_leaves: bool) -> int {
    let kept: int = if sender_leaves && current > 0 {
        current - 1
    } else {
        current as int
    };
    if kept + newcomers > u32::MAX {
        u32::MAX as int
    } else {
        kept + newcomers
    }
}

/// Stops unless the engine's holder cap leaves room for the newcomers.
///
/// Without newcomers nothing is asked. Where the engine has no cap, its holder
/// count is not asked for.
pub open spec fn capacity(
    env: EnvView,
    engine: Address,
    newcomers: nat,
    sender_leaves: bool,
) -> Run {
    let rules = ask(env, Call::GetRules { engine });
    if newcomers == 0 {
        Run { env, halt: None }
    } else if rules.halt is Some {
        rules
    } else {
        let max_holders = env.inbox[0]->Rules_0.max_holders;
        let count = ask(rules.env, Call::HolderCount { engine });
        if max_holders == 0 {
            rules
        } else if count.halt is Some {
            count
        } else if projected_holders(rules.env.inbox[0]->Count_0, newcomers, sender_leaves)
            > max_holders {
            Run { env: count.env, halt: Some(Halt::Error(RwaError::HolderLimitExceeded)) }
        } else {
            count
        }
    }
}

/// Takes one step.
pub open spec fn take_step(step: Step, env: EnvView) -> Run {
    match step {
        Step::Check(holds, halt) => Run {
            env,
            halt: if holds {
                None
            } else {
                Some(halt)
            },
        },
        Step::Ask(call) => ask(env, call),
        Step::Capacity { engine, newcomers, sender_leaves } => capacity(
            env,
            engine,
            newcomers,
            sender_leaves,
        ),
        Step::Emit(event) => Run { env: env.publish(event), halt: None },
    }
}

/// Takes steps in order, up to the first one that stops.
pub open spec fn play(steps: Seq<Step>, env: EnvView) -> Run
    decreases steps.len(),
{
    if steps.len() == 0 {
        Run { env, halt: None }
    } else {
        let first = take_step(steps[0], env);
        if first.halt is Some {
            first
        } else {
            play(steps.drop_first(), first.env)
        }
    }
}

/// Taking two lists of steps one after the other is taking their concatenation.
pub broadcast proof fn lemma_play_concat(a: Seq<Step>, b: Seq<Step>, env: EnvView)
    ensures
        #[trigger] play(a + b, env) == (if play(a, env).halt is Some {
            play(a, env)
        } else {
            play(b, play(a, env).env)
        }),
    decreases a.len(),
{
    if a.len() == 0 {
        assert(a + b =~= b);
    } else {
        assert((a + b).drop_first() =~= a.drop_first() + b);
        lemma_play_concat(a.drop_first(), b, take_step(a[0], env).env);
    }
}

/// Taking one more step is taking it where the others end.
pub broadcast proof fn lemma_play_push(steps: Seq<Step>, step: Step, env: EnvView)
    ensures
        #[trigger] play(steps.push(step), env) == (if play(steps, env).halt is Some {
            play(steps, env)
        } else {
            take_step(step, play(steps, env).env)
        }),
    decreases steps.len(),
{
    if steps.len() == 0 {
        reveal_with_fuel(play, 2);
        assert(steps.push(step).drop_first() =~= steps);
    } else {
        assert(steps.push(step).drop_first() =~= steps.drop_first().push(step));
        lemma_play_push(steps.drop_first(), step, take_step(steps[0], env).env);
    }
}

/// Steps leave the ledger as it is, only add to the log, and use answers up in
/// order.
pub proof fn lemma_play_frame(steps: Seq<Step>, env: EnvView)
    ensures
        play(steps, env).env.sequence == env.sequence,
        play(steps, env).env.timestamp == env.timestamp,
        play(steps, env).env.contract == env.contract,
        env.log.is_prefix_of(play(steps, env).env.log),
        play(steps, env).env.inbox.is_suffix_of(env.inbox),
    decreases steps.len(),
{
    if steps.len() > 0 {
        let first = take_step(steps[0], env);
        assert(env.log.is_prefix_of(first.env.log));
        assert(first.env.inbox.is_suffix_of(env.inbox));
        if first.halt is None {
            lemma_play_frame(steps.drop_first(), first.env);
            let end = play(steps, env).env;
            assert(env.log =~= end.log.subrange(0, env.log.len() as int));
            assert(end.inbox =~= env.inbox.subrange(
                env.inbox.len() - end.inbox.len(),
                env.inbox.len() as int,
            ));
        }
    }
}

pub broadcast group group_play {
    lemma_play_concat,
    lemma_play_push,
}

impl Env {
    /// Publishes an event.
    pub fn publish(&mut self, event: Event)
        ensures
            final(self)@ == old(self)@.publish(event),
    {
        self.log.push(Effect::Event(event));
    }

    /// Makes a call and returns its answer, once there is one.
    pub fn call(&mut self, call: Call) -> (reply: Result<Reply, Halt>)
        ensures
            final(self)@ == old(self)@.called(call),
            reply == (if old(self)@.inbox.len() == 0 {
                Err(Halt::Pending)
            } else {
                Ok(old(self)@.inbox[0])
            }),
    {
        self.log.push(Effect::Call(call));
        if self.inbox.len() == 0 {
            return Err(Halt::Pending);
        }
        let reply = self.inbox.remove(0);
        assert(self.inbox@ =~= old(self).inbox@.drop_first());
        Ok(reply)
    }

    /// Stops unless `addr` has authorized the running invocation.
    pub fn require_auth(&mut self, addr: Address) -> (result: Result<(), Halt>)
        ensures
            returns_run(final(self)@, result, ask(old(self)@, Call::RequireAuth { addr })),
    {
        match self.call(Call::RequireAuth { addr })? {
            Reply::Done => Ok(()),
            _ => Err(Halt::Trap(Trap::Unauthorized)),
        }
    }
}

/// What a function reports of a run: its surroundings are those where the run
/// ended, and it fails with the reason for which the run stopped.
pub open spec fn returns_run<T>(after: EnvView, result: Result<T, Halt>, run: Run) -> bool {
    &&& after == run.env
    &&& match run.halt {
        Some(halt) => result == Err::<T, Halt>(halt),
        None => result is Ok,
    }
}

} // verus!
