//! A token for real-world assets that only approved parties can hold.
//!
//! The token keeps balances, allowances and a capped supply. Before tokens move,
//! it asks a KYC registry whether the parties are approved and a compliance
//! engine whether the transfer is allowed, and it tells the engine who holds
//! tokens. An admin, helped by role holders, runs the token; guardians can
//! replace a lost admin.
//!
//! [`RwaToken`] is the stored state, with one method for each entry point.
//! An entry point does no input or output of its own: it takes the answers to
//! its calls from an [`Env`] and leaves the calls and events in its log. The
//! contract of each one lists its steps in order, as a sequence of
//! [`host::Step`], and the state that it leaves behind. [`laws`] and the modules
//! [`solvency`], [`holders`], [`invariants`] and [`protocol`] state what follows
//! for all of them together.

pub mod admin;
pub mod allowance;
pub mod balance;
pub mod compliance;
pub mod events;
pub mod holders;
pub mod host;
pub mod invariants;
pub mod kyc;
pub mod laws;
pub mod metadata;
pub mod operation;
pub mod protocol;
pub mod recovery;
pub mod roles;
pub mod solvency;
pub mod supply;
pub mod table;
pub mod token;
pub mod transfer;
pub mod types;
pub mod versioning;

pub use crate::compliance::{ComplianceRulesMirror, DenyReason, TransferDecision};
pub use crate::events::{Event, Value};
pub use crate::host::{Call, Effect, Env, Reply};
pub use crate::kyc::{KycRecord, KycStatusMirror, KycSyncStatus};
pub use crate::metadata::{
    META_GOVERNING_LAW, META_ISIN, META_LEGAL_ENTITY, META_PROSPECTUS_HASH,
};
pub use crate::operation::Operation;
pub use crate::token::RwaToken;
pub use crate::types::{
    Address, AllowanceValue, ComplianceMetadata, Halt, MigrationRecord, RecipientEntry,
    RecoveryConfig, RecoveryProposal, RwaError, SchemaVersionRecord, TokenExportMetadata, Trap,
};
