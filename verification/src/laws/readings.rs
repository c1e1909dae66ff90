//! Laws of what the token is deployed with and says about itself. Each is
//! stated of the answers that the functions may give.

use vstd::prelude::*;

use crate::admin::read_admin;
use crate::allowance::read_allowance;
use crate::balance::read_balance;
use crate::compliance::{is_frozen, read_compliance_engine, read_metadata};
use crate::host::Env;
use crate::kyc::{evaluate_record, KycRecord, KycStatusMirror, KycSyncStatus};
use crate::laws::records::metadata_keys_are_distinct;
use crate::token::RwaToken;
use crate::types::{
    Address, AllowanceValue, ComplianceMetadata, Halt, MigrationRecord, RecoveryConfig,
    RecoveryProposal, RwaError, SchemaVersionRecord, TokenExportMetadata, Trap,
};

verus! {

/// A balance is what is stored for the account, and nothing where nothing is.
pub proof fn balances_are_as_stored(
    token: RwaToken,
    id: Address,
    balance: i128,
    same: i128,
    supply: i128,
    cap: i128,
)
    requires
        call_ensures(RwaToken::balance, (&token, id), balance),
        call_ensures(read_balance, (&token.balances, id), same),
        call_ensures(RwaToken::total_supply, (&token,), supply),
        call_ensures(RwaToken::max_supply, (&token,), cap),
    ensures
        token.balances@.contains_key(id) ==> balance == token.balances@[id],
        !token.balances@.contains_key(id) ==> balance == 0,
        same == balance,
        supply == token.total_supply,
        cap == token.max_supply,
{
}

/// An allowance is what is stored for owner and spender, before its expiration
/// ledger, and nothing from that ledger on or where nothing is stored.
pub proof fn allowances_are_as_stored(
    token: RwaToken,
    env: Env,
    from: Address,
    spender: Address,
    amount: i128,
    read: AllowanceValue,
)
    requires
        call_ensures(RwaToken::allowance, (&token, &env, from, spender), amount),
        call_ensures(read_allowance, (&token.allowances, &env, from, spender), read),
    ensures
        amount == read.amount,
        !token.allowances@.contains_key((from, spender)) ==> amount == 0,
        token.allowances@.contains_key((from, spender)) ==> {
            let given = token.allowances@[(from, spender)];
            &&& env.sequence < given.expiration_ledger ==> amount == given.amount
            &&& env.sequence >= given.expiration_ledger ==> amount == 0
            &&& read.expiration_ledger == given.expiration_ledger
        },
{
}

/// An account is frozen exactly if that is stored of it.
pub proof fn frozen_accounts_are_as_stored(
    token: RwaToken,
    addr: Address,
    frozen: bool,
    same: bool,
)
    requires
        call_ensures(RwaToken::is_frozen, (&token, addr), frozen),
        call_ensures(is_frozen, (&token, addr), same),
    ensures
        frozen <==> token.frozen@.contains_key(addr) && token.frozen@[addr],
        same == frozen,
{
}

/// A role has the holder that is stored for it, and none where none is.
pub proof fn role_holders_are_as_stored(token: RwaToken, role: String, holder: Option<Address>)
    requires
        call_ensures(RwaToken::get_role_holder, (&token, role), holder),
    ensures
        match holder {
            Some(holder) => token.roles@.contains_key(role@) && token.roles@[role@] == holder,
            None => !token.roles@.contains_key(role@),
        },
{
}

/// The admin is the stored one; a token without one is not initialized.
pub proof fn authority_is_as_stored(
    token: RwaToken,
    admin: Result<Address, Halt>,
    nonce: u64,
    registry: Address,
    engine: Address,
    same: Address,
)
    requires
        call_ensures(read_admin, (&token,), admin),
        call_ensures(RwaToken::admin_nonce, (&token,), nonce),
        call_ensures(RwaToken::kyc_registry, (&token,), registry),
        call_ensures(RwaToken::compliance_engine, (&token,), engine),
        call_ensures(read_compliance_engine, (&token,), same),
    ensures
        match admin {
            Ok(admin) => token.admin == Some(admin),
            Err(halt) => token.admin is None && halt == Halt::Error(RwaError::NotInitialized),
        },
        nonce == token.admin_nonce,
        registry == token.kyc_registry,
        engine == token.compliance_engine,
        same == engine,
{
}

/// The token's identity is as stored, and the version of its code is fixed.
pub proof fn identity_is_as_stored(
    token: RwaToken,
    decimals: u32,
    name: String,
    symbol: String,
    asset_type: String,
    version: String,
)
    requires
        call_ensures(RwaToken::decimals, (&token,), decimals),
        call_ensures(RwaToken::name, (&token,), name),
        call_ensures(RwaToken::symbol, (&token,), symbol),
        call_ensures(RwaToken::asset_type, (&token,), asset_type),
        call_ensures(RwaToken::version, (&token,), version),
    ensures
        decimals == token.decimals,
        name@ == token.name@,
        symbol@ == token.symbol@,
        asset_type@ == token.asset_type@,
        version@ == "0.1.0"@,
{
}

/// A metadata field is as stored, and empty where it was never set.
pub proof fn metadata_is_as_stored(token: RwaToken, key: String, value: String, same: String)
    requires
        call_ensures(RwaToken::get_compliance_metadata, (&token, key), value),
        call_ensures(read_metadata, (&token, &key), same),
    ensures
        token.compliance_meta@.contains_key(key@) ==> value@ == token.compliance_meta@[key@]@,
        !token.compliance_meta@.contains_key(key@) ==> value@.len() == 0,
        same@ == value@,
{
}

/// Whether an optional text stands for the metadata field under `key`: it is
/// there exactly if the field is set and not empty.
pub open spec fn shows(text: Option<String>, token: RwaToken, key: Seq<char>) -> bool {
    match text {
        Some(text) => token.compliance_meta@.contains_key(key) && text@
            == token.compliance_meta@[key]@ && text@.len() > 0,
        None => token.compliance_meta@.contains_key(key) ==> token.compliance_meta@[key]@.len()
            == 0,
    }
}

/// The fixed metadata fields are read under their own keys.
pub proof fn fixed_fields_are_as_stored(token: RwaToken, meta: ComplianceMetadata)
    requires
        call_ensures(RwaToken::get_all_compliance_metadata, (&token,), meta),
    ensures
        shows(meta.legal_entity, token, "legal_ent"@),
        shows(meta.governing_law, token, "gov_law"@),
        shows(meta.isin, token, "isin"@),
        shows(meta.prospectus_hash, token, "pros_hash"@),
{
}

/// The external URI is as stored, and empty where there is none.
pub proof fn uri_is_as_stored(token: RwaToken, uri: String)
    requires
        call_ensures(RwaToken::get_external_uri, (&token,), uri),
    ensures
        token.external_uri matches Some(set) ==> uri@ == set@,
        token.external_uri is None ==> uri@.len() == 0,
{
}

/// An export shows all that the single readers show.
pub proof fn export_is_as_stored(token: RwaToken, export: TokenExportMetadata)
    requires
        call_ensures(RwaToken::get_token_export, (&token,), export),
    ensures
        export.name@ == token.name@,
        export.symbol@ == token.symbol@,
        export.decimals == token.decimals,
        export.asset_type@ == token.asset_type@,
        export.total_supply == token.total_supply,
        export.max_supply == token.max_supply,
        export.contract_version@ == "0.1.0"@,
        export.kyc_registry == token.kyc_registry,
        export.compliance_engine == token.compliance_engine,
        shows(export.legal_entity, token, "legal_ent"@),
        shows(export.governing_law, token, "gov_law"@),
        shows(export.isin, token, "isin"@),
        shows(export.prospectus_hash, token, "pros_hash"@),
        export.external_uri is Some <==> token.external_uri is Some,
        export.external_uri matches Some(uri) ==> uri@ == token.external_uri->0@,
{
}

/// The recovery settings, the guardians and the open proposal are as stored.
pub proof fn recovery_is_as_stored(
    token: RwaToken,
    config: Result<RecoveryConfig, Halt>,
    members: Result<Vec<Address>, Halt>,
    proposal: Option<RecoveryProposal>,
)
    requires
        call_ensures(RwaToken::recovery_config, (&token,), config),
        call_ensures(RwaToken::recovery_members, (&token,), members),
        call_ensures(RwaToken::active_recovery, (&token,), proposal),
    ensures
        match config {
            Ok(config) => token.recovery_config == Some(config),
            Err(halt) => token.recovery_config is None && halt == Halt::Error(
                RwaError::RecoveryNotConfigured,
            ),
        },
        match members {
            Ok(members) => token.recovery_members is Some && token.recovery_members->0@ == members@,
            Err(halt) => token.recovery_members is None && halt == Halt::Error(
                RwaError::RecoveryNotConfigured,
            ),
        },
        match proposal {
            Some(proposal) => {
                &&& token.active_recovery is Some
                &&& proposal.proposed_admin == token.active_recovery->0.proposed_admin
                &&& proposal.proposer == token.active_recovery->0.proposer
                &&& proposal.approvals@ == token.active_recovery->0.approvals@
                &&& proposal.expiry_ledger == token.active_recovery->0.expiry_ledger
            },
            None => token.active_recovery is None,
        },
{
}

/// The versions and the migration records are as stored. The time of the last
/// migration is that of the record with the highest number, and zero without
/// one.
pub proof fn versions_are_as_stored(
    token: RwaToken,
    info: (String, u32, u64),
    schema: u32,
    index: u32,
    record: Result<MigrationRecord, Halt>,
    schema_record: Result<SchemaVersionRecord, Halt>,
)
    requires
        call_ensures(RwaToken::contract_version_info, (&token,), info),
        call_ensures(RwaToken::schema_version, (&token,), schema),
        call_ensures(RwaToken::get_migration_record, (&token, index), record),
        call_ensures(RwaToken::get_schema_migration_record, (&token, index), schema_record),
    ensures
        ({
            let (version, count, last) = info;
            &&& version@ == token.version@
            &&& count == token.migration_count
            &&& token.migration_count == 0 ==> last == 0
            &&& index + 1 == token.migration_count ==> {
                &&& token.migrations@.contains_key(index) ==> last
                    == token.migrations@[index].timestamp
                &&& !token.migrations@.contains_key(index) ==> last == 0
            }
        }),
        schema == token.schema_version,
        match record {
            Ok(record) => token.migrations@.contains_key(index) && record
                == token.migrations@[index],
            Err(halt) => !token.migrations@.contains_key(index) && halt == Halt::Trap(
                Trap::MigrationRecordNotFound,
            ),
        },
        match schema_record {
            Ok(record) => token.schema_migrations@.contains_key(index) && record
                == token.schema_migrations@[index],
            Err(halt) => !token.schema_migrations@.contains_key(index) && halt == Halt::Trap(
                Trap::SchemaMigrationRecordNotFound,
            ),
        },
{
}

/// A record is evaluated as active exactly if it is an approval without an
/// expiry, or one whose expiry has not passed, and everything else is repeated.
pub proof fn records_are_evaluated(record: KycRecord, now: u64, status: KycSyncStatus)
    requires
        call_ensures(evaluate_record, (record, now), status),
    ensures
        status.is_active <==> record.status == KycStatusMirror::Approved && (record.expiry == 0
            || now <= record.expiry),
        status.status == record.status,
        status.tier == record.tier,
        status.expiry == record.expiry,
        status.jurisdiction@ == record.jurisdiction@,
        status.checked_at == now,
{
}

/// A token is deployed for exactly three asset types and with a cap that is not
/// negative, the asset type being looked at first. It starts with its admin,
/// without balances, supply, roles, allowances, frozen accounts, records,
/// recovery or pending handover.
#[verifier::rlimit(30)]
pub proof fn deployments_start_empty(
    admin: Address,
    decimal: u32,
    name: String,
    symbol: String,
    asset_type: String,
    kyc_registry: Address,
    compliance_engine: Address,
    meta: Option<ComplianceMetadata>,
    max_supply: i128,
    result: Result<RwaToken, Halt>,
)
    requires
        call_ensures(
            RwaToken::__constructor,
            (
                admin,
                decimal,
                name,
                symbol,
                asset_type,
                kyc_registry,
                compliance_engine,
                meta,
                max_supply,
            ),
            result,
        ),
    ensures
        ({
            let supported = asset_type@ == "invoice"@ || asset_type@ == "property"@ || asset_type@
                == "carbon_credit"@;
            match result {
                Ok(token) => {
                    &&& supported && max_supply >= 0
                    &&& token.admin == Some(admin)
                    &&& token.pending_admin is None
                    &&& token.admin_nonce == 0
                    &&& token.roles@ == Map::<Seq<char>, Address>::empty()
                    &&& token.kyc_registry == kyc_registry
                    &&& token.compliance_engine == compliance_engine
                    &&& token.decimals == decimal
                    &&& token.name@ == name@
                    &&& token.symbol@ == symbol@
                    &&& token.asset_type@ == asset_type@
                    &&& token.external_uri is None
                    &&& token.balances@ == Map::<Address, i128>::empty()
                    &&& token.total_supply == 0
                    &&& token.max_supply == max_supply
                    &&& token.frozen@ == Map::<Address, bool>::empty()
                    &&& token.allowances@ == Map::<(Address, Address), AllowanceValue>::empty()
                    &&& !token.transfer_lock
                    &&& token.version@ == "0.1.0"@
                    &&& token.migration_count == 0
                    &&& token.migrations@ == Map::<u32, MigrationRecord>::empty()
                    &&& token.schema_version == 1
                    &&& token.schema_migration_count == 0
                    &&& token.schema_migrations@ == Map::<u32, SchemaVersionRecord>::empty()
                    &&& token.recovery_config is None
                    &&& token.recovery_members is None
                    &&& token.recovery_threshold is None
                    &&& token.active_recovery is None
                },
                Err(halt) => {
                    &&& !supported ==> halt == Halt::Trap(Trap::InvalidAssetType)
                    &&& supported ==> max_supply < 0 && halt == Halt::Error(
                        RwaError::NegativeAmount,
                    )
                },
            }
        }),
{
}

/// Whether a metadata field holds a text, or is not set where there is none.
pub open spec fn holds_text(token: RwaToken, key: Seq<char>, text: Option<String>) -> bool {
    match text {
        Some(text) => token.compliance_meta@.contains_key(key) && token.compliance_meta@[key]@
            == text@,
        None => !token.compliance_meta@.contains_key(key),
    }
}

/// A new token has the metadata fields that it was deployed with, each under
/// its own key, and no others.
#[verifier::rlimit(30)]
pub proof fn deployments_store_their_metadata(
    admin: Address,
    decimal: u32,
    name: String,
    symbol: String,
    asset_type: String,
    kyc_registry: Address,
    compliance_engine: Address,
    meta: Option<ComplianceMetadata>,
    max_supply: i128,
    token: RwaToken,
    other: Seq<char>,
)
    requires
        call_ensures(
            RwaToken::__constructor,
            (
                admin,
                decimal,
                name,
                symbol,
                asset_type,
                kyc_registry,
                compliance_engine,
                meta,
                max_supply,
            ),
            Ok::<RwaToken, Halt>(token),
        ),
    ensures
        match meta {
            Some(meta) => {
                &&& holds_text(token, "legal_ent"@, meta.legal_entity)
                &&& holds_text(token, "gov_law"@, meta.governing_law)
                &&& holds_text(token, "isin"@, meta.isin)
                &&& holds_text(token, "pros_hash"@, meta.prospectus_hash)
            },
            None => token.compliance_meta@ == Map::<Seq<char>, String>::empty(),
        },
        other != "legal_ent"@ && other != "gov_law"@ && other != "isin"@ && other != "pros_hash"@
            ==> !token.compliance_meta@.contains_key(other),
{
    metadata_keys_are_distinct();
}

/// A deployed token cannot be initialized again.
pub proof fn initialization_is_refused(
    token: RwaToken,
    admin: Address,
    decimal: u32,
    name: String,
    symbol: String,
    asset_type: String,
    kyc_registry: Address,
    compliance_engine: Address,
    result: Result<(), Halt>,
)
    requires
        call_ensures(
            RwaToken::initialize,
            (
                &token,
                admin,
                decimal,
                name,
                symbol,
                asset_type,
                kyc_registry,
                compliance_engine,
            ),
            result,
        ),
    ensures
        result == Err::<(), Halt>(Halt::Error(RwaError::AlreadyInitialized)),
{
}

} // verus!
