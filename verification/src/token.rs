//! The token contract's stored state and how an operation changes it.

use vstd::prelude::*;

use crate::host::{play, returns_run, EnvView, Step};
use crate::table::Table;
use crate::types::{
    Address, AllowanceValue, Halt, MigrationRecord, ProposalView, RecoveryConfig, RecoveryProposal,
    SchemaVersionRecord,
};

verus! {

/// The token contract: all that it keeps in storage.
pub struct RwaToken {
    pub admin: Option<Address>,
    pub pending_admin: Option<Address>,
    pub admin_nonce: u64,
    /// Role symbols and who holds them.
    pub roles: Table<String, Address>,
    pub kyc_registry: Address,
    pub compliance_engine: Address,
    pub decimals: u32,
    pub name: String,
    pub symbol: String,
    pub asset_type: String,
    pub compliance_meta: Table<String, String>,
    pub external_uri: Option<String>,
    pub balances: Table<Address, i128>,
    pub total_supply: i128,
    /// The supply cap; zero means that there is none.
    pub max_supply: i128,
    pub frozen: Table<Address, bool>,
    /// Allowances by owner and spender.
    pub allowances: Table<(Address, Address), AllowanceValue>,
    /// Set while a transfer is under way.
    pub transfer_lock: bool,
    pub version: String,
    pub migration_count: u32,
    pub migrations: Table<u32, MigrationRecord>,
    /// The numeric schema version; zero for deployments that predate it.
    pub schema_version: u32,
    pub schema_migration_count: u32,
    pub schema_migrations: Table<u32, SchemaVersionRecord>,
    pub recovery_config: Option<RecoveryConfig>,
    pub recovery_members: Option<Vec<Address>>,
    /// The recovery threshold once more, for readers of this slot alone.
    pub recovery_threshold: Option<u32>,
    pub active_recovery: Option<RecoveryProposal>,
}

/// The value of an [`RwaToken`].
#[verifier::ext_equal]
pub struct TokenView {
    pub admin: Option<Address>,
    pub pending_admin: Option<Address>,
    pub admin_nonce: u64,
    pub roles: Map<Seq<char>, Address>,
    pub kyc_registry: Address,
    pub compliance_engine: Address,
    pub decimals: u32,
    pub name: String,
    pub symbol: String,
    pub asset_type: String,
    pub compliance_meta: Map<Seq<char>, String>,
    pub external_uri: Option<String>,
    pub balances: Map<Address, i128>,
    pub total_supply: i128,
    pub max_supply: i128,
    pub frozen: Map<Address, bool>,
    pub allowances: Map<(Address, Address), AllowanceValue>,
    pub transfer_lock: bool,
    pub version: String,
    pub migration_count: u32,
    pub migrations: Map<u32, MigrationRecord>,
    pub schema_version: u32,
    pub schema_migration_count: u32,
    pub schema_migrations: Map<u32, SchemaVersionRecord>,
    pub recovery_config: Option<RecoveryConfig>,
    pub recovery_members: Option<Seq<Address>>,
    pub recovery_threshold: Option<u32>,
    pub active_recovery: Option<ProposalView>,
}

impl View for RwaToken {
    type V = TokenView;

    open spec fn view(&self) -> TokenView {
        TokenView {
            admin: self.admin,
            pending_admin: self.pending_admin,
            admin_nonce: self.admin_nonce,
            roles: self.roles@,
            kyc_registry: self.kyc_registry,
            compliance_engine: self.compliance_engine,
            decimals: self.decimals,
            name: self.name,
            symbol: self.symbol,
            asset_type: self.asset_type,
            compliance_meta: self.compliance_meta@,
            external_uri: self.external_uri,
            balances: self.balances@,
            total_supply: self.total_supply,
            max_supply: self.max_supply,
            frozen: self.frozen@,
            allowances: self.allowances@,
            transfer_lock: self.transfer_lock,
            version: self.version,
            migration_count: self.migration_count,
            migrations: self.migrations@,
            schema_version: self.schema_version,
            schema_migration_count: self.schema_migration_count,
            schema_migrations: self.schema_migrations@,
            recovery_config: self.recovery_config,
            recovery_members: match self.recovery_members {
                Some(members) => Some(members@),
                None => None,
            },
            recovery_threshold: self.recovery_threshold,
            active_recovery: match self.active_recovery {
                Some(proposal) => Some(proposal@),
                None => None,
            },
        }
    }
}

/// How an operation ends: it takes `steps`. If one of them stops, it fails
/// with the reason and the token is as before; else the token is `goal`.
pub open spec fn settles<T>(
    pre: TokenView,
    post: TokenView,
    before: EnvView,
    after: EnvView,
    result: Result<T, Halt>,
    steps: Seq<Step>,
    goal: TokenView,
) -> bool {
    let run = play(steps, before);
    &&& returns_run(after, result, run)
    &&& post == (if run.halt is Some {
        pre
    } else {
        goal
    })
}

} // verus!
