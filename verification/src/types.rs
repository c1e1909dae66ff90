//! Plain values that the token's rules are stated over: addresses, errors,
//! stored records and snapshots.

use vstd::prelude::*;

verus! {

/// An account or contract address.
///
/// The rules only ever ask whether two addresses are the same one, so an
/// address is a number that stands for exactly one account or contract.
#[derive(Clone, Copy, Debug, PartialEq, Eq, Structural)]
pub struct Address {
    pub id: u64,
}

impl View for Address {
    type V = Address;

    open spec fn view(&self) -> Address {
        *self
    }
}

/// Returns whether `list` holds `addr`.
pub fn contains_address(list: &Vec<Address>, addr: Address) -> (found: bool)
    ensures
        found == list@.contains(addr),
{
    let mut i: usize = 0;
    while i < list.len()
        invariant
            i <= list.len(),
            forall|j: int| 0 <= j < i ==> list@[j] != addr,
        decreases list.len() - i,
    {
        if list[i] == addr {
            return true;
        }
        i = i + 1;
    }
    false
}

/// Returns a list of the same items.
pub fn copy_list<T: Copy>(list: &Vec<T>) -> (copy: Vec<T>)
    ensures
        copy@ == list@,
{
    let mut copy: Vec<T> = Vec::new();
    let mut i: usize = 0;
    while i < list.len()
        invariant
            i <= list.len(),
            copy@ == list@.take(i as int),
        decreases list.len() - i,
    {
        copy.push(list[i]);
        assert(list@.take(i + 1) =~= list@.take(i as int).push(list@[i as int]));
        i = i + 1;
    }
    assert(list@.take(i as int) =~= list@);
    copy
}

/// The typed errors of the contract.
#[derive(Clone, Copy, Debug, PartialEq, Eq, PartialOrd, Ord, Structural)]
pub enum RwaError {
    AlreadyInitialized,
    KycNotApproved,
    TransferBlocked,
    InsufficientBalance,
    AllowanceExpired,
    InsufficientAllowance,
    AccountFrozen,
    /// The amount is zero or negative.
    NegativeAmount,
    /// A batch lists more than ten recipients.
    BatchTooLarge,
    /// The admin has not configured recovery.
    RecoveryNotConfigured,
    /// The caller is not a recovery guardian.
    NotRecoveryMember,
    /// A recovery proposal is already in progress.
    RecoveryAlreadyActive,
    /// The guardian has already approved the active proposal.
    AlreadyApproved,
    /// There is no active recovery proposal.
    NoActiveRecovery,
    /// The recovery threshold does not fit the guardian list.
    InvalidRecoveryConfig,
    /// The mint would exceed the configured supply cap.
    ExceedsMaxSupply,
    /// A nonce-protected operation was submitted out of order.
    InvalidNonce,
    /// The compliance engine trapped or could not be reached.
    ComplianceEngineUnavailable,
    /// The KYC registry trapped or could not be reached.
    KycRegistryUnavailable,
    /// The caller is neither the admin nor the holder of the required role.
    UnauthorizedRole,
    /// The batch total does not fit in an `i128`.
    BatchAmountOverflow,
    /// The transfer would exceed the configured holder cap.
    HolderLimitExceeded,
    /// The migration names the version that is already stored.
    MigrationVersionConflict,
    /// A schema migration must raise the version by exactly one.
    MigrationVersionNotSequential,
    /// The active recovery proposal has passed its expiry ledger.
    RecoveryExpired,
    /// Too few guardians have approved the recovery.
    InsufficientApprovals,
    /// The proposer may not approve their own proposal.
    ProposerCannotApprove,
    /// The cooldown since the last recovery has not elapsed.
    RecoveryCooldown,
    /// No admin handover has been proposed.
    NoPendingAdmin,
    /// The contract has no admin.
    NotInitialized,
    /// A batch lists no recipients.
    EmptyBatch,
    /// The proposed admin already is the admin.
    AlreadyAdmin,
}

impl RwaError {
    /// The number under which the error is reported.
    pub open spec fn spec_code(self) -> u32 {
        match self {
            RwaError::AlreadyInitialized => 1,
            RwaError::KycNotApproved => 2,
            RwaError::TransferBlocked => 3,
            RwaError::InsufficientBalance => 4,
            RwaError::AllowanceExpired => 5,
            RwaError::InsufficientAllowance => 6,
            RwaError::AccountFrozen => 7,
            RwaError::NegativeAmount => 8,
            RwaError::BatchTooLarge => 9,
            RwaError::RecoveryNotConfigured => 10,
            RwaError::NotRecoveryMember => 11,
            RwaError::RecoveryAlreadyActive => 12,
            RwaError::AlreadyApproved => 13,
            RwaError::NoActiveRecovery => 14,
            RwaError::InvalidRecoveryConfig => 15,
            RwaError::ExceedsMaxSupply => 16,
            RwaError::InvalidNonce => 17,
            RwaError::ComplianceEngineUnavailable => 18,
            RwaError::KycRegistryUnavailable => 19,
            RwaError::UnauthorizedRole => 20,
            RwaError::BatchAmountOverflow => 21,
            RwaError::HolderLimitExceeded => 22,
            RwaError::MigrationVersionConflict => 23,
            RwaError::MigrationVersionNotSequential => 24,
            RwaError::RecoveryExpired => 25,
            RwaError::InsufficientApprovals => 26,
            RwaError::ProposerCannotApprove => 27,
            RwaError::RecoveryCooldown => 28,
            RwaError::NoPendingAdmin => 29,
            RwaError::NotInitialized => 30,
            RwaError::EmptyBatch => 31,
            RwaError::AlreadyAdmin => 32,
        }
    }

    /// Returns the number under which the error is reported.
    pub fn code(&self) -> (code: u32)
        ensures
            code == self.spec_code(),
    {
        match self {
            RwaError::AlreadyInitialized => 1,
            RwaError::KycNotApproved => 2,
            RwaError::TransferBlocked => 3,
            RwaError::InsufficientBalance => 4,
            RwaError::AllowanceExpired => 5,
            RwaError::InsufficientAllowance => 6,
            RwaError::AccountFrozen => 7,
            RwaError::NegativeAmount => 8,
            RwaError::BatchTooLarge => 9,
            RwaError::RecoveryNotConfigured => 10,
            RwaError::NotRecoveryMember => 11,
            RwaError::RecoveryAlreadyActive => 12,
            RwaError::AlreadyApproved => 13,
            RwaError::NoActiveRecovery => 14,
            RwaError::InvalidRecoveryConfig => 15,
            RwaError::ExceedsMaxSupply => 16,
            RwaError::InvalidNonce => 17,
            RwaError::ComplianceEngineUnavailable => 18,
            RwaError::KycRegistryUnavailable => 19,
            RwaError::UnauthorizedRole => 20,
            RwaError::BatchAmountOverflow => 21,
            RwaError::HolderLimitExceeded => 22,
            RwaError::MigrationVersionConflict => 23,
            RwaError::MigrationVersionNotSequential => 24,
            RwaError::RecoveryExpired => 25,
            RwaError::InsufficientApprovals => 26,
            RwaError::ProposerCannotApprove => 27,
            RwaError::RecoveryCooldown => 28,
            RwaError::NoPendingAdmin => 29,
            RwaError::NotInitialized => 30,
            RwaError::EmptyBatch => 31,
            RwaError::AlreadyAdmin => 32,
        }
    }
}

/// Aborts that carry no error number.
#[derive(Clone, Copy, Debug, PartialEq, Eq, Structural)]
pub enum Trap {
    /// The address that had to authorize the call did not.
    Unauthorized,
    /// A transfer was entered while another one was under way.
    TransferReentrant,
    /// The asset type is none of the supported ones.
    InvalidAssetType,
    /// A stored number would leave its range.
    ArithmeticOverflow,
    /// There is no migration record at the index.
    MigrationRecordNotFound,
    /// There is no schema migration record at the index.
    SchemaMigrationRecordNotFound,
}

/// Why an operation did not complete. In every case nothing was changed.
#[derive(Clone, Copy, Debug, PartialEq, Eq, Structural)]
pub enum Halt {
    /// The operation was refused with a typed error.
    Error(RwaError),
    /// The operation was aborted.
    Trap(Trap),
    /// The operation waits for the answer to the last call that it logged.
    Pending,
}

/// One leg of a batch transfer.
#[derive(Clone, Copy, Debug, PartialEq, Eq, Structural)]
pub struct RecipientEntry {
    pub to: Address,
    pub amount: i128,
}

/// An allowance and the ledger at which it lapses.
#[derive(Clone, Copy, Debug, PartialEq, Eq, Structural)]
pub struct AllowanceValue {
    pub amount: i128,
    pub expiration_ledger: u32,
}

/// The recovery threshold, cooldown and last execution. The guardians are
/// stored beside it.
#[derive(Clone, Copy, Debug, PartialEq, Eq, Structural)]
pub struct RecoveryConfig {
    pub threshold: u32,
    pub cooldown_ledgers: u32,
    pub last_executed_ledger: u64,
}

/// An in-progress recovery proposal.
#[derive(Clone, Debug, PartialEq, Eq)]
pub struct RecoveryProposal {
    pub proposed_admin: Address,
    pub proposer: Address,
    pub approvals: Vec<Address>,
    pub expiry_ledger: u64,
}

/// The value of a [`RecoveryProposal`].
#[verifier::ext_equal]
pub struct ProposalView {
    pub proposed_admin: Address,
    pub proposer: Address,
    pub approvals: Seq<Address>,
    pub expiry_ledger: u64,
}

impl View for RecoveryProposal {
    type V = ProposalView;

    open spec fn view(&self) -> ProposalView {
        ProposalView {
            proposed_admin: self.proposed_admin,
            proposer: self.proposer,
            approvals: self.approvals@,
            expiry_ledger: self.expiry_ledger,
        }
    }
}

/// Record of one admin-initiated migration.
#[derive(Debug, PartialEq, Eq)]
pub struct MigrationRecord {
    pub from_version: String,
    pub to_version: String,
    pub timestamp: u64,
    pub description: String,
}

impl Clone for MigrationRecord {
    fn clone(&self) -> (copy: Self)
        ensures
            copy == *self,
    {
        MigrationRecord {
            from_version: self.from_version.clone(),
            to_version: self.to_version.clone(),
            timestamp: self.timestamp,
            description: self.description.clone(),
        }
    }
}

/// Record of one numeric schema migration.
#[derive(Debug, PartialEq, Eq)]
pub struct SchemaVersionRecord {
    pub from_version: u32,
    pub to_version: u32,
    pub timestamp: u64,
    pub description: String,
}

impl Clone for SchemaVersionRecord {
    fn clone(&self) -> (copy: Self)
        ensures
            copy == *self,
    {
        SchemaVersionRecord {
            from_version: self.from_version,
            to_version: self.to_version,
            timestamp: self.timestamp,
            description: self.description.clone(),
        }
    }
}

/// The compliance metadata fields with a fixed key.
#[derive(Clone, Debug, PartialEq, Eq)]
pub struct ComplianceMetadata {
    pub legal_entity: Option<String>,
    pub governing_law: Option<String>,
    pub isin: Option<String>,
    pub prospectus_hash: Option<String>,
}

/// Everything that outside integrations read of a token in one piece.
#[derive(Clone, Debug, PartialEq, Eq)]
pub struct TokenExportMetadata {
    pub name: String,
    pub symbol: String,
    pub decimals: u32,
    pub asset_type: String,
    pub total_supply: i128,
    pub max_supply: i128,
    pub contract_version: String,
    pub kyc_registry: Address,
    pub compliance_engine: Address,
    pub legal_entity: Option<String>,
    pub governing_law: Option<String>,
    pub isin: Option<String>,
    pub prospectus_hash: Option<String>,
    pub external_uri: Option<String>,
}

} // verus!
