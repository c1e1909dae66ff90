//! Laws of the KYC state that the token reports.

use vstd::prelude::*;

use crate::events::Event;
use crate::host::{play, Call, Effect, EnvView, Reply};
use crate::kyc::{active_at, snapshot, sync_kyc_status_steps, KycRecord, KycStatusMirror};
use crate::laws::verdicts::verdict;
use crate::types::Address;

verus! {

broadcast use crate::host::group_play;

/// Only an approval is ever active: one without an expiry always, another one
/// at every second up to its expiry, that one counted in, and never after it.
pub proof fn approvals_are_active_until_they_lapse(record: KycRecord, now: u64)
    ensures
        record.status == KycStatusMirror::Approved && record.expiry == 0 ==> active_at(record, now),
        record.status == KycStatusMirror::Approved && now <= record.expiry ==> active_at(
            record,
            now,
        ),
        active_at(record, now) ==> record.status == KycStatusMirror::Approved,
        active_at(record, now) && record.expiry > 0 ==> now <= record.expiry,
{
}

/// A record that is active at some time was so at every earlier time.
pub proof fn activity_never_returns(record: KycRecord, earlier: u64, later: u64)
    requires
        earlier <= later,
        active_at(record, later),
    ensures
        active_at(record, earlier),
{
}

/// A later expiry never makes a record inactive, and neither does none.
pub proof fn longer_approvals_are_active_as_well(record: KycRecord, longer: KycRecord, now: u64)
    requires
        active_at(record, now),
        longer.status == record.status,
        longer.expiry == 0 || (record.expiry > 0 && longer.expiry >= record.expiry),
    ensures
        active_at(longer, now),
{
}

/// A snapshot repeats the record, says when it was taken, and is active exactly
/// for an approval that has not lapsed then.
pub proof fn snapshots_repeat_the_record(record: KycRecord, now: u64)
    ensures
        ({
            let status = snapshot(record, now);
            &&& status.status == record.status
            &&& status.tier == record.tier
            &&& status.expiry == record.expiry
            &&& status.jurisdiction == record.jurisdiction
            &&& status.checked_at == now
            &&& status.is_active <==> record.status == KycStatusMirror::Approved && !(0
                < record.expiry < now)
        }),
{
}

/// A KYC sync fetches one record and publishes for the address whether it is
/// active at the time of the ledger, and its expiry.
pub proof fn sync_publishes_the_record(registry: Address, env: EnvView, addr: Address)
    ensures
        ({
            let run = play(sync_kyc_status_steps(registry, env, addr), env);
            let call = Call::GetRecord { registry, addr };
            &&& run.halt == verdict(call, env.inbox, 0)
            &&& run.halt is None ==> {
                let record = env.inbox[0]->Record_0;
                let is_active = record.status == KycStatusMirror::Approved && !(0 < record.expiry
                    < env.timestamp);
                &&& env.inbox[0] == Reply::Record(record)
                &&& run.env.inbox == env.inbox.skip(1)
                &&& run.env.log == env.log + seq![
                    Effect::Call(call),
                    Effect::Event(Event::KycStale { addr, is_active, expiry: record.expiry }),
                ]
            }
        }),
{
    reveal_with_fuel(play, 3);
    let run = play(sync_kyc_status_steps(registry, env, addr), env);
    if run.halt is None {
        assert(run.env.inbox =~= env.inbox.skip(1));
    }
}

} // verus!
