//! The stored contract version, the numeric schema version and the records of
//! their migrations.

use vstd::prelude::*;

use crate::admin::{admin_steps, consume_nonce, next_nonce, nonce_steps, require_admin};
use crate::events::{emit_migrated, emit_schema_migrated, Event};
use crate::host::{play, Env, Step};
use crate::token::{settles, RwaToken, TokenView};
use crate::types::{Halt, MigrationRecord, RwaError, SchemaVersionRecord, Trap};

verus! {

broadcast use crate::host::group_play;

/// The version of the contract code, which is also stored at deployment.
pub const CONTRACT_VERSION: &'static str = "0.1.0";

/// The schema version of a new deployment.
pub const INITIAL_SCHEMA_VERSION: u32 = 1;

pub open spec fn migrate_steps(token: TokenView, new_version: String, nonce: u64) -> Seq<Step> {
    admin_steps(token) + nonce_steps(token, nonce) + seq![
        Step::Check(
            new_version@ != token.version@,
            Halt::Error(RwaError::MigrationVersionConflict),
        ),
        Step::Check(
            token.migration_count < u32::MAX,
            Halt::Trap(Trap::ArithmeticOverflow),
        ),
        Step::Emit(Event::Migrated { new_version, nonce }),
    ]
}

/// The token after a migration at `timestamp`.
pub open spec fn migrated(
    token: TokenView,
    new_version: String,
    description: String,
    timestamp: u64,
) -> TokenView {
    TokenView {
        admin_nonce: next_nonce(token),
        version: new_version,
        migrations: token.migrations.insert(
            token.migration_count,
            MigrationRecord {
                from_version: token.version,
                to_version: new_version,
                timestamp,
                description,
            },
        ),
        migration_count: (token.migration_count + 1) as u32,
        ..token
    }
}

pub open spec fn migrate_schema_steps(token: TokenView, to_version: u32, nonce: u64) -> Seq<Step> {
    admin_steps(token) + nonce_steps(token, nonce) + seq![
        Step::Check(
            to_version != token.schema_version,
            Halt::Error(RwaError::MigrationVersionConflict),
        ),
        Step::Check(
            to_version == token.schema_version + 1,
            Halt::Error(RwaError::MigrationVersionNotSequential),
        ),
        Step::Check(
            token.schema_migration_count < u32::MAX,
            Halt::Trap(Trap::ArithmeticOverflow),
        ),
        Step::Emit(
            Event::SchemaMigrated { from_version: token.schema_version, to_version },
        ),
    ]
}

/// The token after a schema migration at `timestamp`.
pub open spec fn schema_migrated(
    token: TokenView,
    to_version: u32,
    description: String,
    timestamp: u64,
) -> TokenView {
    TokenView {
        admin_nonce: next_nonce(token),
        schema_version: to_version,
        schema_migrations: token.schema_migrations.insert(
            token.schema_migration_count,
            SchemaVersionRecord {
                from_version: token.schema_version,
                to_version,
                timestamp,
                description,
            },
        ),
        schema_migration_count: (token.schema_migration_count + 1) as u32,
        ..token
    }
}

/// The timestamp of the last migration, or zero if none has run.
pub open spec fn last_migrated_at(token: TokenView) -> u64 {
    let last = (token.migration_count - 1) as u32;
    if token.migration_count > 0 && token.migrations.contains_key(last) {
        token.migrations[last].timestamp
    } else {
        0
    }
}

impl RwaToken {
    /// Returns the stored version, the number of migrations and the timestamp
    /// of the last one, which is zero if none has run.
    pub fn contract_version_info(&self) -> (info: (String, u32, u64))
        ensures
            info == (self@.version, self@.migration_count, last_migrated_at(self@)),
    {
        let last_ts: u64 = if self.migration_count > 0 {
            match self.migrations.get(&(self.migration_count - 1)) {
                Some(record) => record.timestamp,
                None => 0,
            }
        } else {
            0
        };
        (self.version.clone(), self.migration_count, last_ts)
    }

    /// Records a migration to `new_version`. Admin-only, nonce-protected. The
    /// stored version cannot be migrated to.
    pub fn migrate(
        &mut self,
        env: &mut Env,
        new_version: String,
        description: String,
        nonce: u64,
    ) -> (result: Result<(), Halt>)
        ensures
            settles(
                old(self)@,
                final(self)@,
                old(env)@,
                final(env)@,
                result,
                migrate_steps(old(self)@, new_version, nonce),
                migrated(old(self)@, new_version, description, old(env)@.timestamp),
            ),
    {
        reveal_with_fuel(play, 4);
        require_admin(self, env)?;
        let next = consume_nonce(self, nonce)?;
        if new_version == self.version {
            return Err(Halt::Error(RwaError::MigrationVersionConflict));
        }
        let index: u32 = self.migration_count;
        let count = match index.checked_add(1) {
            Some(count) => count,
            None => return Err(Halt::Trap(Trap::ArithmeticOverflow)),
        };
        let record = MigrationRecord {
            from_version: self.version.clone(),
            to_version: new_version.clone(),
            timestamp: env.timestamp,
            description,
        };
        self.admin_nonce = next;
        self.migrations.set(index, record);
        self.migration_count = count;
        self.version = new_version.clone();
        emit_migrated(env, new_version, nonce);
        Ok(())
    }

    /// Returns the migration record at `index`.
    pub fn get_migration_record(&self, index: u32) -> (record: Result<MigrationRecord, Halt>)
        ensures
            record == (if self@.migrations.contains_key(index) {
                Ok::<MigrationRecord, Halt>(self@.migrations[index])
            } else {
                Err::<MigrationRecord, Halt>(Halt::Trap(Trap::MigrationRecordNotFound))
            }),
    {
        match self.migrations.get(&index) {
            Some(record) => Ok(record.clone()),
            None => Err(Halt::Trap(Trap::MigrationRecordNotFound)),
        }
    }

    /// Returns the numeric schema version.
    pub fn schema_version(&self) -> (version: u32)
        ensures
            version == self@.schema_version,
    {
        self.schema_version
    }

    /// Records a migration of the schema to the version after the current one.
    /// Admin-only, nonce-protected.
    pub fn migrate_schema(
        &mut self,
        env: &mut Env,
        to_version: u32,
        description: String,
        nonce: u64,
    ) -> (result: Result<(), Halt>)
        ensures
            settles(
                old(self)@,
                final(self)@,
                old(env)@,
                final(env)@,
                result,
                migrate_schema_steps(old(self)@, to_version, nonce),
                schema_migrated(old(self)@, to_version, description, old(env)@.timestamp),
            ),
    {
        reveal_with_fuel(play, 5);
        require_admin(self, env)?;
        let next = consume_nonce(self, nonce)?;
        let current: u32 = self.schema_version;
        if to_version == current {
            return Err(Halt::Error(RwaError::MigrationVersionConflict));
        }
        if current == u32::MAX || to_version != current + 1 {
            return Err(Halt::Error(RwaError::MigrationVersionNotSequential));
        }
        let index: u32 = self.schema_migration_count;
        let count = match index.checked_add(1) {
            Some(count) => count,
            None => return Err(Halt::Trap(Trap::ArithmeticOverflow)),
        };
        let record = SchemaVersionRecord {
            from_version: current,
            to_version,
            timestamp: env.timestamp,
            description,
        };
        self.admin_nonce = next;
        self.schema_migrations.set(index, record);
        self.schema_migration_count = count;
        self.schema_version = to_version;
        emit_schema_migrated(env, current, to_version);
        Ok(())
    }

    /// Returns the schema migration record at `index`.
    pub fn get_schema_migration_record(&self, index: u32) -> (record: Result<
        SchemaVersionRecord,
        Halt,
    >)
        ensures
            record == (if self@.schema_migrations.contains_key(index) {
                Ok::<SchemaVersionRecord, Halt>(self@.schema_migrations[index])
            } else {
                Err::<SchemaVersionRecord, Halt>(
                    Halt::Trap(Trap::SchemaMigrationRecordNotFound),
                )
            }),
    {
        match self.schema_migrations.get(&index) {
            Some(record) => Ok(record.clone()),
            None => Err(Halt::Trap(Trap::SchemaMigrationRecordNotFound)),
        }
    }
}

} // verus!
