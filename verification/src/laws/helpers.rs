//! Laws of the parts that operations are made of: what is stored, what is
//! asked, and how each answer is taken.

use vstd::prelude::*;

use crate::admin::{consume_nonce, require_admin};
use crate::allowance::spend_allowance;
use crate::balance::{receive_balance, spend_balance};
use crate::compliance::{
    check_mint, check_transfer, ensure_holder_capacity, register_holder, set_frozen,
    unregister_holder, write_compliance_engine, write_metadata,
};
use crate::events::Event;
use crate::host::{play, Call, Effect, Env, Reply};
use crate::kyc::{fetch_kyc_sync_status, require_kyc, KycStatusMirror, KycSyncStatus};
use crate::laws::exact::{admin_only, role_only};
use crate::laws::issuance::{stored, usable};
use crate::laws::settlement::{cap_decides, cap_questions, cap_refusal};
use crate::laws::verdicts::verdict;
use crate::roles::require_admin_or_role;
use crate::table::Table;
use crate::token::{RwaToken, TokenView};
use crate::types::{Address, AllowanceValue, Halt, RwaError, Trap};

verus! {

broadcast use crate::host::group_play;

/// Taking from a balance needs that much in it and takes exactly that much,
/// from no other balance.
pub proof fn spending_takes_from_one_balance(
    balances: &mut Table<Address, i128>,
    from: Address,
    amount: i128,
    result: Result<(), Halt>,
)
    requires
        call_ensures(spend_balance, (balances, from, amount), result),
    ensures
        ({
            let held = stored(old(balances)@, from);
            match result {
                Ok(()) => {
                    &&& amount <= held && held - amount <= i128::MAX
                    &&& final(balances)@ == old(balances)@.insert(from, (held - amount) as i128)
                },
                Err(halt) => {
                    &&& final(balances)@ == old(balances)@
                    &&& amount > held ==> halt == Halt::Error(RwaError::InsufficientBalance)
                    &&& amount <= held ==> held - amount > i128::MAX && halt == Halt::Trap(
                        Trap::ArithmeticOverflow,
                    )
                },
            }
        }),
{
}

/// Adding to a balance adds exactly that much, to no other balance, as long as
/// it stays in range.
pub proof fn receiving_adds_to_one_balance(
    balances: &mut Table<Address, i128>,
    to: Address,
    amount: i128,
    result: Result<(), Halt>,
)
    requires
        call_ensures(receive_balance, (balances, to, amount), result),
    ensures
        ({
            let sum = stored(old(balances)@, to) + amount;
            match result {
                Ok(()) => {
                    &&& i128::MIN <= sum <= i128::MAX
                    &&& final(balances)@ == old(balances)@.insert(to, sum as i128)
                },
                Err(halt) => {
                    &&& sum < i128::MIN || sum > i128::MAX
                    &&& final(balances)@ == old(balances)@
                    &&& halt == Halt::Trap(Trap::ArithmeticOverflow)
                },
            }
        }),
{
}

/// Using an allowance needs that much of it. At every ledger before its
/// expiration ledger that much less is left then, and nothing from that ledger
/// on. No other allowance changes.
pub proof fn spending_uses_one_allowance(
    allowances: &mut Table<(Address, Address), AllowanceValue>,
    env: Env,
    from: Address,
    spender: Address,
    amount: i128,
    result: Result<(), Halt>,
    ledger: u32,
    owner: Address,
    other: Address,
)
    requires
        amount > 0,
        call_ensures(spend_allowance, (allowances, &env, from, spender, amount), result),
    ensures
        ({
            let given = old(allowances)@[(from, spender)];
            let before = old(allowances)@;
            let after = final(allowances)@;
            match result {
                Ok(()) => {
                    &&& usable(before, from, spender, env.sequence) >= amount
                    &&& usable(after, from, spender, ledger) == (if ledger
                        < given.expiration_ledger {
                        given.amount - amount
                    } else {
                        0
                    })
                    &&& after.contains_key((from, spender)) ==> after[(
                        from,
                        spender,
                    )].expiration_ledger == given.expiration_ledger
                    &&& after.contains_key((from, spender)) <==> given.amount > amount
                    &&& (owner, other) != (from, spender) ==> {
                        &&& after.contains_key((owner, other)) == before.contains_key(
                            (owner, other),
                        )
                        &&& after[(owner, other)] == before[(owner, other)]
                    }
                },
                Err(halt) => {
                    &&& usable(before, from, spender, env.sequence) < amount
                    &&& after == before
                    &&& halt == Halt::Error(RwaError::InsufficientAllowance)
                },
            }
        }),
{
}

/// Freezing, setting a metadata field and replacing the engine each write one
/// thing and leave everything else alone.
pub proof fn writers_write_one_thing(
    frozen: &mut RwaToken,
    addr: Address,
    flag: bool,
    described: &mut RwaToken,
    key: String,
    value: String,
    linked: &mut RwaToken,
    engine: Address,
)
    requires
        call_ensures(set_frozen, (frozen, addr, flag), ()),
        call_ensures(write_metadata, (described, key, value), ()),
        call_ensures(write_compliance_engine, (linked, engine), ()),
    ensures
        final(frozen)@ == (TokenView {
            frozen: old(frozen)@.frozen.insert(addr, flag),
            ..old(frozen)@
        }),
        final(described)@ == (TokenView {
            compliance_meta: old(described)@.compliance_meta.insert(key@, value),
            ..old(described)@
        }),
        final(linked)@ == (TokenView { compliance_engine: engine, ..old(linked)@ }),
{
}

/// A nonce is good exactly if it is the current one, and is followed by the
/// next number.
pub proof fn nonces_are_compared(token: RwaToken, nonce: u64, next: Result<u64, Halt>)
    requires
        call_ensures(consume_nonce, (&token, nonce), next),
    ensures
        match next {
            Ok(next) => nonce == token.admin_nonce && next == nonce + 1,
            Err(halt) => if nonce == token.admin_nonce {
                nonce == u64::MAX && halt == Halt::Trap(Trap::ArithmeticOverflow)
            } else {
                halt == Halt::Error(RwaError::InvalidNonce)
            },
        },
{
}

/// Whether a function made one call and ended as the answer to it says.
pub open spec fn made_one_call<T>(
    before: Env,
    after: Env,
    call: Call,
    result: Result<T, Halt>,
) -> bool {
    &&& after.log@ == before.log@.push(Effect::Call(call))
    &&& after.inbox@ == (if before.inbox@.len() == 0 {
        before.inbox@
    } else {
        before.inbox@.skip(1)
    })
    &&& after.sequence == before.sequence
    &&& after.timestamp == before.timestamp
    &&& after.contract == before.contract
    &&& match verdict(call, before.inbox@, 0) {
        None => result is Ok,
        Some(halt) => result == Err::<T, Halt>(halt),
    }
}

/// A call takes the next answer, and publishing adds one event to the log. An
/// authorization is given by the answer to the call for it.
pub proof fn surroundings_are_used_in_order(
    calling: &mut Env,
    call: Call,
    reply: Result<Reply, Halt>,
    publishing: &mut Env,
    event: Event,
    asking: &mut Env,
    addr: Address,
    result: Result<(), Halt>,
)
    requires
        call_ensures(Env::call, (calling, call), reply),
        call_ensures(Env::publish, (publishing, event), ()),
        call_ensures(Env::require_auth, (asking, addr), result),
    ensures
        final(calling).log@ == old(calling).log@.push(Effect::Call(call)),
        match reply {
            Ok(reply) => old(calling).inbox@ == seq![reply] + final(calling).inbox@,
            Err(halt) => halt == Halt::Pending && old(calling).inbox@.len() == 0,
        },
        final(publishing).log@ == old(publishing).log@.push(Effect::Event(event)),
        final(publishing).inbox@ == old(publishing).inbox@,
        made_one_call(*old(asking), *final(asking), Call::RequireAuth { addr }, result),
{
    if reply is Ok {
        assert(old(calling)@.inbox =~= seq![reply->Ok_0] + final(calling)@.inbox);
    }
}

/// An approval is asked of the token's registry.
pub proof fn approval_is_asked_of_the_registry(
    token: RwaToken,
    env: &mut Env,
    addr: Address,
    result: Result<(), Halt>,
)
    requires
        call_ensures(require_kyc, (&token, env, addr), result),
    ensures
        made_one_call(
            *old(env),
            *final(env),
            Call::IsApproved { registry: token.kyc_registry, addr },
            result,
        ),
{
}

/// A transfer is put to the token's engine as it is.
pub proof fn transfer_is_put_to_the_engine(
    token: RwaToken,
    env: &mut Env,
    from: Address,
    to: Address,
    amount: i128,
    result: Result<(), Halt>,
)
    requires
        call_ensures(check_transfer, (&token, env, from, to, amount), result),
    ensures
        made_one_call(
            *old(env),
            *final(env),
            Call::EvaluateTransfer { engine: token.compliance_engine, from, to, amount },
            result,
        ),
{
}

/// A mint is put to the token's engine as a transfer from the token itself.
pub proof fn mint_is_put_to_the_engine(
    token: RwaToken,
    env: &mut Env,
    to: Address,
    amount: i128,
    result: Result<(), Halt>,
)
    requires
        call_ensures(check_mint, (&token, env, to, amount), result),
    ensures
        made_one_call(
            *old(env),
            *final(env),
            Call::CanTransfer {
                engine: token.compliance_engine,
                from: old(env).contract,
                to,
                amount,
            },
            result,
        ),
{
}

/// The token's engine is told who becomes a holder and who is none any more.
pub proof fn holders_are_told_to_the_engine(
    token: RwaToken,
    coming: &mut Env,
    going: &mut Env,
    addr: Address,
    joined: Result<(), Halt>,
    gone: Result<(), Halt>,
)
    requires
        call_ensures(register_holder, (&token, coming, addr), joined),
        call_ensures(unregister_holder, (&token, going, addr), gone),
    ensures
        made_one_call(
            *old(coming),
            *final(coming),
            Call::RegisterHolder { engine: token.compliance_engine, addr },
            joined,
        ),
        made_one_call(
            *old(going),
            *final(going),
            Call::UnregisterHolder { engine: token.compliance_engine, addr },
            gone,
        ),
{
}

/// The holder cap of the token's engine stops too many new holders: it holds
/// for the count with them and without a leaving sender.
pub proof fn holder_cap_is_asked_of_the_engine(
    token: RwaToken,
    env: &mut Env,
    arriving: u32,
    leaving: bool,
    result: Result<(), Halt>,
)
    requires
        call_ensures(ensure_holder_capacity, (&token, env, arriving, leaving), result),
    ensures
        ({
            let engine = token.compliance_engine;
            let inbox = old(env).inbox@;
            match cap_refusal(engine, inbox, 0, arriving as nat, leaving) {
                None => {
                    &&& result is Ok
                    &&& final(env).log@ == old(env).log@ + cap_questions(
                        engine,
                        inbox,
                        0,
                        arriving as nat,
                    )
                },
                Some(halt) => result == Err::<(), Halt>(halt),
            }
        }),
{
    assert(old(env)@.inbox =~= old(env).inbox@.skip(0));
    cap_decides(
        old(env)@,
        old(env).inbox@,
        0,
        token.compliance_engine,
        arriving as nat,
        leaving,
    );
}

/// A KYC state is that of the record that the registry answers with, at the
/// time of the ledger.
pub proof fn kyc_state_is_fetched(
    token: RwaToken,
    fetching: &mut Env,
    checking: &mut Env,
    addr: Address,
    fetched: Result<KycSyncStatus, Halt>,
    checked: Result<KycSyncStatus, Halt>,
)
    requires
        call_ensures(fetch_kyc_sync_status, (&token, fetching, addr), fetched),
        call_ensures(RwaToken::check_kyc_status, (&token, checking, addr), checked),
    ensures
        made_one_call(
            *old(fetching),
            *final(fetching),
            Call::GetRecord { registry: token.kyc_registry, addr },
            fetched,
        ),
        made_one_call(
            *old(checking),
            *final(checking),
            Call::GetRecord { registry: token.kyc_registry, addr },
            checked,
        ),
        checked matches Ok(status) ==> {
            let record = old(checking).inbox@[0]->Record_0;
            &&& old(checking).inbox@[0] == Reply::Record(record)
            &&& status.is_active <==> record.status == KycStatusMirror::Approved && (record.expiry
                == 0 || old(checking).timestamp <= record.expiry)
            &&& status.status == record.status
            &&& status.tier == record.tier
            &&& status.expiry == record.expiry
            &&& status.jurisdiction@ == record.jurisdiction@
            &&& status.checked_at == old(checking).timestamp
        },
        fetched matches Ok(status) ==> {
            let record = old(fetching).inbox@[0]->Record_0;
            &&& status.is_active <==> record.status == KycStatusMirror::Approved && (record.expiry
                == 0 || old(fetching).timestamp <= record.expiry)
            &&& status.status == record.status
            &&& status.tier == record.tier
            &&& status.expiry == record.expiry
            &&& status.jurisdiction@ == record.jurisdiction@
            &&& status.checked_at == old(fetching).timestamp
        },
{
}

/// A KYC sync returns whether the fetched record is active at the time of the
/// ledger.
pub proof fn kyc_sync_returns_the_activity(
    token: RwaToken,
    env: &mut Env,
    addr: Address,
    result: Result<bool, Halt>,
)
    requires
        call_ensures(RwaToken::sync_kyc_status, (&token, env, addr), result),
    ensures
        match verdict(
            Call::GetRecord { registry: token.kyc_registry, addr },
            old(env).inbox@,
            0,
        ) {
            None => {
                let record = old(env).inbox@[0]->Record_0;
                result == Ok::<bool, Halt>(
                    record.status == KycStatusMirror::Approved && (record.expiry == 0 || old(
                        env,
                    ).timestamp <= record.expiry),
                )
            },
            Some(halt) => result == Err::<bool, Halt>(halt),
        },
{
    reveal_with_fuel(play, 3);
}

/// The admin's door opens for the admin alone, and any other door for the admin
/// and the holder of its role.
pub proof fn doors_open_for_authority(
    token: RwaToken,
    first: &mut Env,
    admin: Result<Address, Halt>,
    second: &mut Env,
    caller: Address,
    role: &str,
    result: Result<(), Halt>,
)
    requires
        call_ensures(require_admin, (&token, first), admin),
        call_ensures(require_admin_or_role, (&token, second, caller, role), result),
    ensures
        match admin_only(token@, old(first)@) {
            None => admin is Ok && token.admin == Some(admin->Ok_0),
            Some(halt) => admin == Err::<Address, Halt>(halt),
        },
        match role_only(token@, old(second)@, caller, role@) {
            None => result is Ok,
            Some(halt) => result == Err::<(), Halt>(halt),
        },
{
    reveal_with_fuel(play, 4);
}

/// The transfer guard lets a transfer in exactly if none is under way, notes
/// that one is, and forgets it once it has left. It changes nothing else.
pub proof fn guard_notes_a_transfer(
    entering: &mut RwaToken,
    result: Result<(), Halt>,
    leaving: &mut RwaToken,
)
    requires
        call_ensures(RwaToken::enter_transfer_guard, (entering,), result),
        call_ensures(RwaToken::exit_transfer_guard, (leaving,), ()),
    ensures
        old(entering)@.transfer_lock ==> result == Err::<(), Halt>(
            Halt::Trap(Trap::TransferReentrant),
        ) && final(entering)@ == old(entering)@,
        !old(entering)@.transfer_lock ==> result is Ok && final(entering)@ == (TokenView {
            transfer_lock: true,
            ..old(entering)@
        }),
        final(leaving)@ == (TokenView { transfer_lock: false, ..old(leaving)@ }),
{
}

} // verus!
