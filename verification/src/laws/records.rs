//! Laws of metadata, the external URI and the migration records.

use vstd::prelude::*;

use crate::admin::{admin_steps, next_nonce, nonce_steps};
use crate::compliance::metadata_of;
use crate::host::{play, EnvView};
use crate::invariants::{history_sound, schema_sound};
use crate::metadata::{
    deployed, META_GOVERNING_LAW, META_ISIN, META_LEGAL_ENTITY, META_PROSPECTUS_HASH,
};
use crate::operation::Operation;
use crate::protocol::lemma_success_holds_checks;
use crate::token::TokenView;
use crate::types::{Address, ComplianceMetadata, Halt, RwaError};
use crate::versioning::{last_migrated_at, migrate_schema_steps, migrate_steps};

verus! {

broadcast use crate::host::group_play;

/// What a token was deployed as stays: its name, symbol, decimals and asset
/// type.
pub proof fn identity_is_fixed(operation: Operation, token: TokenView, env: EnvView)
    ensures
        operation.outcome(token, env).name == token.name,
        operation.outcome(token, env).symbol == token.symbol,
        operation.outcome(token, env).decimals == token.decimals,
        operation.outcome(token, env).asset_type == token.asset_type,
{
}

/// A metadata field reads back as it was set, and setting it leaves the other
/// fields alone.
pub proof fn metadata_reads_back(
    token: TokenView,
    env: EnvView,
    caller: Address,
    key: String,
    value: String,
    nonce: u64,
    other: Seq<char>,
)
    ensures
        ({
            let set = Operation::SetComplianceMetadata { caller, key, value, nonce };
            let after = set.outcome(token, env);
            &&& metadata_of(after, key@) == value@
            &&& other != key@ ==> metadata_of(after, other) == metadata_of(token, other)
        }),
{
}

/// The keys of the fixed metadata fields are all different.
pub proof fn metadata_keys_are_distinct()
    ensures
        META_LEGAL_ENTITY@ != META_GOVERNING_LAW@,
        META_LEGAL_ENTITY@ != META_ISIN@,
        META_LEGAL_ENTITY@ != META_PROSPECTUS_HASH@,
        META_GOVERNING_LAW@ != META_ISIN@,
        META_GOVERNING_LAW@ != META_PROSPECTUS_HASH@,
        META_ISIN@ != META_PROSPECTUS_HASH@,
{
    reveal_strlit("legal_ent");
    reveal_strlit("gov_law");
    reveal_strlit("isin");
    reveal_strlit("pros_hash");
    assert(META_LEGAL_ENTITY@[0] == 'l');
    assert(META_GOVERNING_LAW@[0] == 'g');
    assert(META_ISIN@[0] == 'i');
    assert(META_PROSPECTUS_HASH@[0] == 'p');
}

/// The characters of an optional text, none if there is no text.
pub open spec fn text_or_empty(text: Option<String>) -> Seq<char> {
    match text {
        Some(text) => text@,
        None => Seq::empty(),
    }
}

/// A new token's metadata fields read as they were given at deployment; those
/// that were not given are empty.
pub proof fn deployment_metadata_reads_back(
    admin: Address,
    decimals: u32,
    name: String,
    symbol: String,
    asset_type: String,
    kyc_registry: Address,
    compliance_engine: Address,
    meta: ComplianceMetadata,
    max_supply: i128,
    version: String,
)
    ensures
        ({
            let token = deployed(
                admin,
                decimals,
                name,
                symbol,
                asset_type,
                kyc_registry,
                compliance_engine,
                Some(meta),
                max_supply,
                version,
            );
            &&& metadata_of(token, META_LEGAL_ENTITY@) == text_or_empty(meta.legal_entity)
            &&& metadata_of(token, META_GOVERNING_LAW@) == text_or_empty(meta.governing_law)
            &&& metadata_of(token, META_ISIN@) == text_or_empty(meta.isin)
            &&& metadata_of(token, META_PROSPECTUS_HASH@) == text_or_empty(meta.prospectus_hash)
        }),
{
    metadata_keys_are_distinct();
}

/// The external URI reads back as it was set; an empty one clears it.
pub proof fn uri_reads_back(token: TokenView, env: EnvView, uri: String)
    ensures
        ({
            let after = Operation::SetExternalUri { uri }.outcome(token, env);
            &&& text_or_empty(after.external_uri) == uri@
            &&& uri@.len() == 0 ==> after.external_uri is None
        }),
{
    if uri@.len() == 0 {
        assert(uri@ =~= Seq::empty());
    }
}

/// A migration is on record: it stores the new version, adds one record at the
/// end that says from where, to where and when, keeps all earlier records, and
/// changes nothing else but the nonce.
pub proof fn migrations_are_recorded(
    token: TokenView,
    env: EnvView,
    new_version: String,
    description: String,
    nonce: u64,
    i: u32,
)
    requires
        history_sound(token),
        play(migrate_steps(token, new_version, nonce), env).halt is None,
    ensures
        ({
            let migrate = Operation::Migrate { new_version, description, nonce };
            let after = migrate.outcome(token, env);
            let record = after.migrations[token.migration_count];
            &&& after.version == new_version
            &&& after.migration_count == token.migration_count + 1
            &&& record.from_version == token.version
            &&& record.to_version == new_version
            &&& record.timestamp == env.timestamp
            &&& record.description == description
            &&& last_migrated_at(after) == env.timestamp
            &&& i < token.migration_count ==> after.migrations[i] == token.migrations[i]
            &&& after == (TokenView {
                version: after.version,
                migrations: after.migrations,
                migration_count: after.migration_count,
                admin_nonce: next_nonce(token),
                ..token
            })
        }),
{
    let steps = migrate_steps(token, new_version, nonce);
    lemma_success_holds_checks(steps, env);
    assert(steps[5] is Check);
}

/// The stored version cannot be migrated to, whatever the nonce.
pub proof fn migration_to_the_stored_version_is_refused(
    token: TokenView,
    env: EnvView,
    new_version: String,
    nonce: u64,
)
    requires
        new_version@ == token.version@,
    ensures
        play(migrate_steps(token, new_version, nonce), env).halt is Some,
        play(admin_steps(token) + nonce_steps(token, nonce), env).halt is None ==> play(
            migrate_steps(token, new_version, nonce),
            env,
        ).halt == Some(Halt::Error(RwaError::MigrationVersionConflict)),
{
    reveal_with_fuel(play, 4);
}

/// The schema version can only be raised by one: the current version is
/// refused as a conflict, any other as out of sequence.
pub proof fn schema_versions_go_up_by_one(
    token: TokenView,
    env: EnvView,
    to_version: u32,
    description: String,
    nonce: u64,
)
    requires
        play(admin_steps(token) + nonce_steps(token, nonce), env).halt is None,
        token.schema_migration_count < u32::MAX,
    ensures
        play(migrate_schema_steps(token, to_version, nonce), env).halt == (if to_version
            == token.schema_version {
            Some(Halt::Error(RwaError::MigrationVersionConflict))
        } else if to_version != token.schema_version + 1 {
            Some(Halt::Error(RwaError::MigrationVersionNotSequential))
        } else {
            None
        }),
{
    reveal_with_fuel(play, 5);
}

/// A schema migration is on record and leaves everything but the schema
/// version and the nonce alone.
pub proof fn schema_migrations_are_recorded(
    token: TokenView,
    env: EnvView,
    to_version: u32,
    description: String,
    nonce: u64,
    i: u32,
)
    requires
        schema_sound(token),
        play(migrate_schema_steps(token, to_version, nonce), env).halt is None,
    ensures
        ({
            let migrate = Operation::MigrateSchema { to_version, description, nonce };
            let after = migrate.outcome(token, env);
            let record = after.schema_migrations[token.schema_migration_count];
            &&& after.schema_version == token.schema_version + 1
            &&& after.schema_migration_count == token.schema_migration_count + 1
            &&& record.from_version == token.schema_version
            &&& record.to_version == to_version
            &&& record.timestamp == env.timestamp
            &&& record.description == description
            &&& i < token.schema_migration_count ==> after.schema_migrations[i]
                == token.schema_migrations[i]
            &&& after == (TokenView {
                schema_version: after.schema_version,
                schema_migrations: after.schema_migrations,
                schema_migration_count: after.schema_migration_count,
                admin_nonce: next_nonce(token),
                ..token
            })
        }),
{
    let steps = migrate_schema_steps(token, to_version, nonce);
    lemma_success_holds_checks(steps, env);
    assert(steps[5] is Check && steps[6] is Check);
}

} // verus!
