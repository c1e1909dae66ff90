//! Tests of single rules, with a host that answers as each test says.

use rwa_token::roles::{ROLE_COMPLIANCE, ROLE_GOVERNANCE, ROLE_LIQUIDITY, ROLE_REGISTRY};
use rwa_token::{
    Address, Call, ComplianceMetadata, ComplianceRulesMirror, DenyReason, Effect, Env, Event, Halt,
    KycRecord, KycStatusMirror, Operation, RecipientEntry, Reply, RwaError, RwaToken,
    TransferDecision, Trap, Value, META_GOVERNING_LAW, META_ISIN, META_LEGAL_ENTITY,
    META_PROSPECTUS_HASH,
};

const REGISTRY: Address = Address { id: 1 };
const ENGINE: Address = Address { id: 2 };
const TOKEN: Address = Address { id: 3 };
const ADMIN: Address = Address { id: 4 };
const ALICE: Address = Address { id: 11 };
const BOB: Address = Address { id: 12 };
const CAROL: Address = Address { id: 13 };
const DAVE: Address = Address { id: 14 };

fn deploy(max_supply: i128) -> RwaToken {
    RwaToken::__constructor(
        ADMIN,
        7,
        "Token".to_string(),
        "TKN".to_string(),
        "carbon_credit".to_string(),
        REGISTRY,
        ENGINE,
        None,
        max_supply,
    )
    .unwrap()
}

fn rules(max_holders: u32) -> ComplianceRulesMirror {
    ComplianceRulesMirror {
        max_transfer_amount: 0,
        min_holding_period: 0,
        max_holders,
        require_same_jurisdiction: false,
        paused: false,
        allowlist_mode: false,
        max_holding_period: 0,
    }
}

fn record(status: KycStatusMirror, expiry: u64) -> KycRecord {
    KycRecord { status, tier: 2, expiry, jurisdiction: "CH".to_string() }
}

/// Answers every call in favour of the operation.
fn favour(call: Call) -> Reply {
    match call {
        Call::RequireAuth { .. } => Reply::Done,
        Call::IsApproved { .. } => Reply::Flag(true),
        Call::GetRecord { .. } => Reply::Record(record(KycStatusMirror::Approved, 0)),
        Call::EvaluateTransfer { .. } => Reply::Decision(TransferDecision::Allow),
        Call::CanTransfer { .. } => Reply::Flag(true),
        Call::GetRules { .. } => Reply::Rules(rules(0)),
        Call::HolderCount { .. } => Reply::Count(0),
        Call::RegisterHolder { .. } => Reply::Done,
        Call::UnregisterHolder { .. } => Reply::Done,
    }
}

/// Runs an operation at a ledger, call by call, and returns its log as well.
fn run_at(
    token: &mut RwaToken,
    sequence: u32,
    answer: impl Fn(Call) -> Reply,
    operation: &Operation,
) -> (Result<(), Halt>, Vec<Effect>) {
    let mut replies: Vec<Reply> = Vec::new();
    loop {
        let mut env = Env {
            sequence,
            timestamp: 1_000,
            contract: TOKEN,
            inbox: replies.clone(),
            log: Vec::new(),
        };
        let result = token.apply(&mut env, operation);
        if result != Err(Halt::Pending) {
            return (result, env.log);
        }
        match env.log.last() {
            Some(Effect::Call(call)) => replies.push(answer(*call)),
            _ => panic!("no call to answer"),
        }
    }
}

fn run(token: &mut RwaToken, operation: Operation) -> Result<(), Halt> {
    run_at(token, 10, favour, &operation).0
}

fn refused(error: RwaError) -> Result<(), Halt> {
    Err(Halt::Error(error))
}

fn events(log: &[Effect]) -> Vec<Event> {
    let mut found = Vec::new();
    for effect in log {
        if let Effect::Event(event) = effect {
            found.push(event.clone());
        }
    }
    found
}

fn calls(log: &[Effect]) -> Vec<Call> {
    let mut found = Vec::new();
    for effect in log {
        if let Effect::Call(call) = effect {
            found.push(*call);
        }
    }
    found
}

fn mint(token: &mut RwaToken, to: Address, amount: i128) {
    run(token, Operation::Mint { caller: ADMIN, to, amount }).unwrap();
}

fn transfer(from: Address, to: Address, amount: i128) -> Operation {
    Operation::Transfer { from, to, amount }
}

fn batch(from: Address, legs: &[(Address, i128)]) -> Operation {
    let mut recipients = Vec::new();
    for (to, amount) in legs {
        recipients.push(RecipientEntry { to: *to, amount: *amount });
    }
    Operation::BatchTransfer { from, recipients }
}

#[test]
fn error_numbers_are_one_to_thirty_two() {
    let errors = [
        RwaError::AlreadyInitialized,
        RwaError::KycNotApproved,
        RwaError::TransferBlocked,
        RwaError::InsufficientBalance,
        RwaError::AllowanceExpired,
        RwaError::InsufficientAllowance,
        RwaError::AccountFrozen,
        RwaError::NegativeAmount,
        RwaError::BatchTooLarge,
        RwaError::RecoveryNotConfigured,
        RwaError::NotRecoveryMember,
        RwaError::RecoveryAlreadyActive,
        RwaError::AlreadyApproved,
        RwaError::NoActiveRecovery,
        RwaError::InvalidRecoveryConfig,
        RwaError::ExceedsMaxSupply,
        RwaError::InvalidNonce,
        RwaError::ComplianceEngineUnavailable,
        RwaError::KycRegistryUnavailable,
        RwaError::UnauthorizedRole,
        RwaError::BatchAmountOverflow,
        RwaError::HolderLimitExceeded,
        RwaError::MigrationVersionConflict,
        RwaError::MigrationVersionNotSequential,
        RwaError::RecoveryExpired,
        RwaError::InsufficientApprovals,
        RwaError::ProposerCannotApprove,
        RwaError::RecoveryCooldown,
        RwaError::NoPendingAdmin,
        RwaError::NotInitialized,
        RwaError::EmptyBatch,
        RwaError::AlreadyAdmin,
    ];
    let mut expected: u32 = 1;
    for error in errors {
        assert_eq!(error.code(), expected);
        expected += 1;
    }
}

#[test]
fn all_asset_types_can_be_deployed() {
    for asset_type in ["invoice", "property", "carbon_credit"] {
        let token = RwaToken::__constructor(
            ADMIN,
            2,
            "Token".to_string(),
            "TKN".to_string(),
            asset_type.to_string(),
            REGISTRY,
            ENGINE,
            None,
            5,
        )
        .unwrap();
        assert_eq!(token.asset_type(), asset_type);
        assert_eq!(token.decimals(), 2);
        assert_eq!(token.max_supply(), 5);
        assert_eq!(token.admin_nonce(), 0);
        assert_eq!(token.version(), "0.1.0");
        assert_eq!(token.contract_version_info(), ("0.1.0".to_string(), 0, 0));
    }
}

#[test]
fn deployment_is_refused() {
    let attempt = |asset_type: &str, max_supply: i128| {
        RwaToken::__constructor(
            ADMIN,
            2,
            "Token".to_string(),
            "TKN".to_string(),
            asset_type.to_string(),
            REGISTRY,
            ENGINE,
            None,
            max_supply,
        )
        .err()
    };
    assert_eq!(attempt("Invoice", 0), Some(Halt::Trap(Trap::InvalidAssetType)));
    assert_eq!(attempt("", -1), Some(Halt::Trap(Trap::InvalidAssetType)));
    assert_eq!(attempt("invoice", -1), Some(Halt::Error(RwaError::NegativeAmount)));
    assert_eq!(attempt("invoice", 0), None);
}

#[test]
fn deployment_metadata_is_readable_by_key() {
    let token = RwaToken::__constructor(
        ADMIN,
        2,
        "Token".to_string(),
        "TKN".to_string(),
        "invoice".to_string(),
        REGISTRY,
        ENGINE,
        Some(ComplianceMetadata {
            legal_entity: Some("Issuer".to_string()),
            governing_law: None,
            isin: Some("XS1".to_string()),
            prospectus_hash: Some("abcd".to_string()),
        }),
        0,
    )
    .unwrap();
    assert_eq!(token.get_compliance_metadata(META_LEGAL_ENTITY.to_string()), "Issuer");
    assert_eq!(token.get_compliance_metadata(META_GOVERNING_LAW.to_string()), "");
    assert_eq!(token.get_compliance_metadata(META_ISIN.to_string()), "XS1");
    assert_eq!(token.get_compliance_metadata(META_PROSPECTUS_HASH.to_string()), "abcd");
    let export = token.get_token_export();
    assert_eq!(export.prospectus_hash, Some("abcd".to_string()));
    assert_eq!(export.governing_law, None);
    assert_eq!(export.contract_version, "0.1.0");
}

#[test]
fn initialization_is_always_refused() {
    let token = deploy(0);
    let result = token.initialize(
        ADMIN,
        7,
        "Token".to_string(),
        "TKN".to_string(),
        "invoice".to_string(),
        REGISTRY,
        ENGINE,
    );
    assert_eq!(result, refused(RwaError::AlreadyInitialized));
}

#[test]
fn operation_waits_for_one_call_at_a_time() {
    let mut token = deploy(0);
    let operation = Operation::Mint { caller: ADMIN, to: ALICE, amount: 5 };
    let mut env =
        Env { sequence: 1, timestamp: 2, contract: TOKEN, inbox: Vec::new(), log: Vec::new() };
    assert_eq!(token.apply(&mut env, &operation), Err(Halt::Pending));
    assert_eq!(env.log, vec![Effect::Call(Call::RequireAuth { addr: ADMIN })]);
    assert_eq!(token.balance(ALICE), 0);

    env.inbox = vec![Reply::Done, Reply::Flag(true)];
    env.log = Vec::new();
    assert_eq!(token.apply(&mut env, &operation), Err(Halt::Pending));
    assert_eq!(
        calls(&env.log),
        vec![
            Call::RequireAuth { addr: ADMIN },
            Call::IsApproved { registry: REGISTRY, addr: ALICE },
            Call::CanTransfer { engine: ENGINE, from: TOKEN, to: ALICE, amount: 5 },
        ]
    );
    assert_eq!(token.balance(ALICE), 0);

    env.inbox = vec![Reply::Done, Reply::Flag(true), Reply::Flag(true), Reply::Done, Reply::Failed];
    env.log = Vec::new();
    assert_eq!(token.apply(&mut env, &operation), Ok(()));
    assert_eq!(env.inbox, vec![Reply::Failed]);
    assert_eq!(
        events(&env.log),
        vec![Event::Mint { to: ALICE, amount: 5, timestamp: 2 }]
    );
    assert_eq!(token.balance(ALICE), 5);
}

#[test]
fn unauthorized_calls_are_aborted() {
    let mut token = deploy(0);
    mint(&mut token, ALICE, 10);
    let deny = |call: Call| match call {
        Call::RequireAuth { .. } => Reply::Failed,
        other => favour(other),
    };
    let unauthorized = Err(Halt::Trap(Trap::Unauthorized));
    for operation in [
        transfer(ALICE, BOB, 1),
        Operation::Burn { from: ALICE, amount: 1 },
        Operation::SetAdmin { new_admin: BOB },
        Operation::Mint { caller: ADMIN, to: ALICE, amount: 1 },
        Operation::Approve { from: ALICE, spender: BOB, amount: 1, expiration_ledger: 99 },
        Operation::Freeze { caller: ADMIN, addr: ALICE },
        Operation::CancelRecovery,
    ] {
        assert_eq!(run_at(&mut token, 10, deny, &operation).0, unauthorized);
    }
    assert_eq!(token.balance(ALICE), 10);
    assert_eq!(token.admin, Some(ADMIN));
}

#[test]
fn transfer_moves_exactly_and_keeps_the_supply() {
    let mut token = deploy(0);
    mint(&mut token, ALICE, 100);
    mint(&mut token, BOB, 7);
    run(&mut token, batch(ALICE, &[(BOB, 30), (ALICE, 20), (CAROL, 5), (BOB, 1)])).unwrap();
    assert_eq!(token.balance(ALICE), 64);
    assert_eq!(token.balance(BOB), 38);
    assert_eq!(token.balance(CAROL), 5);
    assert_eq!(token.total_supply(), 107);
}

#[test]
fn identity_and_cap_never_change() {
    let mut token = deploy(1_000);
    mint(&mut token, ALICE, 100);
    let changes = [
        Operation::SetExternalUri { uri: "ipfs://x".to_string() },
        Operation::MigrateSchema { to_version: 2, description: "d".to_string(), nonce: 0 },
        transfer(ALICE, BOB, 10),
        Operation::Burn { from: BOB, amount: 10 },
        Operation::SetAdmin { new_admin: DAVE },
    ];
    for operation in changes {
        run(&mut token, operation).unwrap();
        assert_eq!(token.name(), "Token");
        assert_eq!(token.symbol(), "TKN");
        assert_eq!(token.decimals(), 7);
        assert_eq!(token.asset_type(), "carbon_credit");
        assert_eq!(token.max_supply(), 1_000);
    }
    assert_eq!(token.total_supply(), 90);
}

#[test]
fn self_transfer_changes_nothing() {
    let mut token = deploy(0);
    mint(&mut token, ALICE, 100);
    let (result, log) = run_at(&mut token, 10, favour, &transfer(ALICE, ALICE, 100));
    assert_eq!(result, Ok(()));
    assert_eq!(token.balance(ALICE), 100);
    assert!(!calls(&log).contains(&Call::UnregisterHolder { engine: ENGINE, addr: ALICE }));
    assert!(!calls(&log).contains(&Call::RegisterHolder { engine: ENGINE, addr: ALICE }));
}

#[test]
fn engine_is_told_once_of_each_change() {
    let mut token = deploy(0);
    mint(&mut token, ALICE, 100);
    let told = |log: &[Effect]| {
        let mut found = calls(log);
        found.retain(|call| {
            matches!(call, Call::RegisterHolder { .. } | Call::UnregisterHolder { .. })
        });
        found
    };
    let engine = ENGINE;
    let twice = batch(ALICE, &[(BOB, 10), (ALICE, 5), (BOB, 20)]);
    let (_, log) = run_at(&mut token, 10, favour, &twice);
    assert_eq!(told(&log), vec![Call::RegisterHolder { engine, addr: BOB }]);
    let back = batch(ALICE, &[(BOB, 30), (ALICE, 40)]);
    let (_, log) = run_at(&mut token, 10, favour, &back);
    assert_eq!(told(&log), Vec::new());
    assert_eq!(token.balance(ALICE), 40);
    let (_, log) = run_at(&mut token, 10, favour, &transfer(ALICE, BOB, 40));
    assert_eq!(told(&log), vec![Call::UnregisterHolder { engine, addr: ALICE }]);
    let (_, log) = run_at(&mut token, 10, favour, &Operation::Burn { from: BOB, amount: 100 });
    assert_eq!(told(&log), vec![Call::UnregisterHolder { engine, addr: BOB }]);
    let again = Operation::Mint { caller: ADMIN, to: BOB, amount: 1 };
    let (_, log) = run_at(&mut token, 10, favour, &again);
    assert_eq!(told(&log), vec![Call::RegisterHolder { engine, addr: BOB }]);
}

#[test]
fn single_transfer_and_batch_of_one_do_the_same() {
    let mut single = deploy(0);
    let mut batched = deploy(0);
    mint(&mut single, ALICE, 100);
    mint(&mut batched, ALICE, 100);
    let (_, single_log) = run_at(&mut single, 10, favour, &transfer(ALICE, BOB, 40));
    let (_, batch_log) = run_at(&mut batched, 10, favour, &batch(ALICE, &[(BOB, 40)]));
    assert_eq!(single_log, batch_log);
    assert_eq!(single.balance(BOB), batched.balance(BOB));
}

#[test]
fn transfer_goes_in_a_fixed_order() {
    let mut token = deploy(0);
    mint(&mut token, ALICE, 100);
    let (result, log) =
        run_at(&mut token, 10, favour, &batch(ALICE, &[(BOB, 60), (CAROL, 40)]));
    assert_eq!(result, Ok(()));
    let registry = REGISTRY;
    let engine = ENGINE;
    assert_eq!(
        log,
        vec![
            Effect::Call(Call::RequireAuth { addr: ALICE }),
            Effect::Call(Call::IsApproved { registry, addr: ALICE }),
            Effect::Call(Call::IsApproved { registry, addr: BOB }),
            Effect::Call(Call::EvaluateTransfer { engine, from: ALICE, to: BOB, amount: 60 }),
            Effect::Call(Call::IsApproved { registry, addr: CAROL }),
            Effect::Call(Call::EvaluateTransfer { engine, from: ALICE, to: CAROL, amount: 40 }),
            Effect::Call(Call::GetRules { engine }),
            Effect::Call(Call::RegisterHolder { engine, addr: BOB }),
            Effect::Call(Call::RegisterHolder { engine, addr: CAROL }),
            Effect::Call(Call::UnregisterHolder { engine, addr: ALICE }),
            Effect::Event(Event::Transfer { from: ALICE, to: BOB, amount: 60, timestamp: 1_000 }),
            Effect::Event(Event::Transfer { from: ALICE, to: CAROL, amount: 40, timestamp: 1_000 }),
        ]
    );
}

#[test]
fn transfers_do_not_nest() {
    let mut token = deploy(0);
    mint(&mut token, ALICE, 100);
    assert_eq!(token.enter_transfer_guard(), Ok(()));
    assert_eq!(token.enter_transfer_guard(), Err(Halt::Trap(Trap::TransferReentrant)));
    let (result, log) = run_at(&mut token, 10, favour, &transfer(ALICE, BOB, 1));
    assert_eq!(result, Err(Halt::Trap(Trap::TransferReentrant)));
    assert_eq!(log, Vec::new());
    token.exit_transfer_guard();
    assert_eq!(token.enter_transfer_guard(), Ok(()));
    token.exit_transfer_guard();
    assert_eq!(run(&mut token, transfer(ALICE, BOB, 1)), Ok(()));
    assert!(!token.transfer_lock);
}

#[test]
fn invalid_transfers_are_refused() {
    let mut token = deploy(0);
    mint(&mut token, ALICE, 100);
    let cases = [
        (transfer(ALICE, BOB, 0), RwaError::NegativeAmount),
        (transfer(ALICE, BOB, -1), RwaError::NegativeAmount),
        (transfer(ALICE, BOB, 101), RwaError::InsufficientBalance),
        (transfer(BOB, ALICE, 1), RwaError::InsufficientBalance),
        (batch(ALICE, &[]), RwaError::EmptyBatch),
        (batch(ALICE, &[(BOB, 1); 11]), RwaError::BatchTooLarge),
        (batch(ALICE, &[(BOB, i128::MAX), (CAROL, 1)]), RwaError::BatchAmountOverflow),
        (batch(ALICE, &[(BOB, 99), (CAROL, 2)]), RwaError::InsufficientBalance),
        (
            Operation::TransferFrom { spender: DAVE, from: ALICE, to: BOB, amount: 1 },
            RwaError::InsufficientAllowance,
        ),
    ];
    for (operation, error) in cases {
        assert_eq!(run(&mut token, operation), refused(error));
    }
    assert_eq!(run(&mut token, batch(ALICE, &[(BOB, 10); 10])), Ok(()));
    assert_eq!(token.balance(BOB), 100);
}

#[test]
fn answers_of_registry_and_engine_decide() {
    let mut token = deploy(0);
    mint(&mut token, ALICE, 100);
    let registry_says = |reply: Reply| {
        move |call: Call| match call {
            Call::IsApproved { .. } => reply.clone(),
            other => favour(other),
        }
    };
    let engine_says = |reply: Reply| {
        move |call: Call| match call {
            Call::EvaluateTransfer { .. } => reply.clone(),
            other => favour(other),
        }
    };
    let send = transfer(ALICE, BOB, 1);
    let no = Reply::Flag(false);
    assert_eq!(
        run_at(&mut token, 10, registry_says(no), &send).0,
        refused(RwaError::KycNotApproved)
    );
    assert_eq!(
        run_at(&mut token, 10, registry_says(Reply::Failed), &send).0,
        refused(RwaError::KycRegistryUnavailable)
    );
    assert_eq!(
        run_at(&mut token, 10, engine_says(Reply::Failed), &send).0,
        refused(RwaError::ComplianceEngineUnavailable)
    );
    let about_kyc = [
        DenyReason::FromKycMissing,
        DenyReason::ToKycMissing,
        DenyReason::FromKycExpired,
        DenyReason::ToKycExpired,
        DenyReason::FromKycRevoked,
        DenyReason::ToKycRevoked,
        DenyReason::FromKycRejected,
        DenyReason::ToKycRejected,
        DenyReason::FromKycPending,
        DenyReason::ToKycPending,
    ];
    for reason in about_kyc {
        let reply = Reply::Decision(TransferDecision::Deny(reason));
        assert_eq!(
            run_at(&mut token, 10, engine_says(reply), &send).0,
            refused(RwaError::KycNotApproved)
        );
    }
    let others = [
        DenyReason::CompliancePaused,
        DenyReason::FromBlocklisted,
        DenyReason::ToBlocklisted,
        DenyReason::FromJurisdictionBlocked,
        DenyReason::ToJurisdictionBlocked,
        DenyReason::SameJurisdictionRequired,
        DenyReason::AmountExceeded,
        DenyReason::HoldingPeriodNotMet,
        DenyReason::MaxHoldersReached,
        DenyReason::RecipientHoldingPeriodExceeded,
        DenyReason::TierPolicyBlocked,
        DenyReason::TierFromBelowMin,
        DenyReason::TierToBelowMin,
        DenyReason::TierAmountExceeded,
        DenyReason::RiskScoreTooHigh,
    ];
    for reason in others {
        let reply = Reply::Decision(TransferDecision::Deny(reason));
        assert_eq!(
            run_at(&mut token, 10, engine_says(reply), &send).0,
            refused(RwaError::TransferBlocked)
        );
    }
    assert_eq!(token.balance(ALICE), 100);
}

#[test]
fn failed_registration_undoes_the_transfer() {
    let mut token = deploy(0);
    mint(&mut token, ALICE, 100);
    let answer = |call: Call| match call {
        Call::RegisterHolder { addr, .. } if addr == CAROL => Reply::Failed,
        Call::UnregisterHolder { .. } => Reply::Failed,
        other => favour(other),
    };
    assert_eq!(
        run_at(&mut token, 10, answer, &batch(ALICE, &[(BOB, 1), (CAROL, 1)])).0,
        refused(RwaError::ComplianceEngineUnavailable)
    );
    assert_eq!(
        run_at(&mut token, 10, answer, &transfer(ALICE, BOB, 100)).0,
        refused(RwaError::ComplianceEngineUnavailable)
    );
    assert_eq!(
        run_at(&mut token, 10, answer, &Operation::Burn { from: ALICE, amount: 100 }).0,
        refused(RwaError::ComplianceEngineUnavailable)
    );
    assert_eq!(token.balance(ALICE), 100);
    assert_eq!(token.balance(BOB), 0);
    assert_eq!(token.total_supply(), 100);
}

#[test]
fn holder_cap_counts_the_whole_batch() {
    let mut token = deploy(0);
    mint(&mut token, ALICE, 100);
    let engine_with = |max_holders: u32, count: u32| {
        move |call: Call| match call {
            Call::GetRules { .. } => Reply::Rules(rules(max_holders)),
            Call::HolderCount { .. } => Reply::Count(count),
            other => favour(other),
        }
    };
    let two_new = batch(ALICE, &[(BOB, 1), (CAROL, 1)]);
    assert_eq!(
        run_at(&mut token, 10, engine_with(2, 1), &two_new).0,
        refused(RwaError::HolderLimitExceeded)
    );
    let draining = batch(ALICE, &[(BOB, 50), (CAROL, 50)]);
    assert_eq!(run_at(&mut token, 10, engine_with(2, 1), &draining).0, Ok(()));
    let (result, log) = run_at(&mut token, 10, engine_with(2, 2), &transfer(BOB, CAROL, 1));
    assert_eq!(result, Ok(()));
    assert!(!calls(&log).contains(&Call::GetRules { engine: ENGINE }));
    let (result, log) = run_at(&mut token, 10, engine_with(0, 9), &transfer(BOB, DAVE, 1));
    assert_eq!(result, Ok(()));
    assert!(!calls(&log).contains(&Call::HolderCount { engine: ENGINE }));
    let unreachable_engine = |call: Call| match call {
        Call::GetRules { .. } => Reply::Failed,
        other => favour(other),
    };
    assert_eq!(
        run_at(&mut token, 10, unreachable_engine, &transfer(BOB, ALICE, 1)).0,
        refused(RwaError::ComplianceEngineUnavailable)
    );
}

#[test]
fn mint_obeys_the_cap() {
    let mut token = deploy(100);
    let attempt = |amount: i128| Operation::Mint { caller: ADMIN, to: ALICE, amount };
    assert_eq!(run(&mut token, attempt(101)), refused(RwaError::ExceedsMaxSupply));
    assert_eq!(run(&mut token, attempt(i128::MAX)), refused(RwaError::ExceedsMaxSupply));
    assert_eq!(run(&mut token, attempt(100)), Ok(()));
    assert_eq!(run(&mut token, attempt(1)), refused(RwaError::ExceedsMaxSupply));
    assert_eq!(run(&mut token, attempt(i128::MAX)), refused(RwaError::ExceedsMaxSupply));
    assert_eq!(run(&mut token, attempt(0)), refused(RwaError::NegativeAmount));
    run(&mut token, Operation::Burn { from: ALICE, amount: 1 }).unwrap();
    assert_eq!(run(&mut token, attempt(1)), Ok(()));
    assert_eq!(token.total_supply(), 100);
}

#[test]
fn uncapped_mint_stops_at_the_largest_number() {
    let mut token = deploy(0);
    mint(&mut token, ALICE, i128::MAX);
    let overflow = Err(Halt::Trap(Trap::ArithmeticOverflow));
    for to in [ALICE, BOB] {
        assert_eq!(run(&mut token, Operation::Mint { caller: ADMIN, to, amount: 1 }), overflow);
    }
    assert_eq!(token.total_supply(), i128::MAX);
    assert_eq!(token.balance(BOB), 0);
    assert_eq!(run(&mut token, transfer(ALICE, BOB, i128::MAX)), Ok(()));
    assert_eq!(token.balance(BOB), i128::MAX);
}

#[test]
fn mint_asks_the_engine_for_new_holders_only() {
    let mut token = deploy(0);
    let engine_denies = |call: Call| match call {
        Call::CanTransfer { .. } => Reply::Flag(false),
        other => favour(other),
    };
    let engine_fails = |call: Call| match call {
        Call::CanTransfer { .. } => Reply::Failed,
        other => favour(other),
    };
    let operation = Operation::Mint { caller: ADMIN, to: ALICE, amount: 5 };
    assert_eq!(
        run_at(&mut token, 10, engine_denies, &operation).0,
        refused(RwaError::TransferBlocked)
    );
    assert_eq!(
        run_at(&mut token, 10, engine_fails, &operation).0,
        refused(RwaError::ComplianceEngineUnavailable)
    );
    mint(&mut token, ALICE, 5);
    assert_eq!(run_at(&mut token, 10, engine_denies, &operation).0, Ok(()));
    assert_eq!(token.balance(ALICE), 10);
}

#[test]
fn burns_are_checked() {
    let mut token = deploy(0);
    mint(&mut token, ALICE, 100);
    let burn = |amount: i128| Operation::Burn { from: ALICE, amount };
    assert_eq!(run(&mut token, burn(0)), refused(RwaError::NegativeAmount));
    assert_eq!(run(&mut token, burn(101)), refused(RwaError::InsufficientBalance));
    let by_bob = Operation::BurnFrom { spender: BOB, from: ALICE, amount: 10 };
    assert_eq!(run(&mut token, by_bob.clone()), refused(RwaError::InsufficientAllowance));
    run(
        &mut token,
        Operation::Approve { from: ALICE, spender: BOB, amount: 15, expiration_ledger: 11 },
    )
    .unwrap();
    let (result, log) = run_at(&mut token, 10, favour, &by_bob);
    assert_eq!(result, Ok(()));
    assert_eq!(events(&log), vec![Event::Burn { from: ALICE, amount: 10, timestamp: 1_000 }]);
    assert_eq!(run(&mut token, by_bob), refused(RwaError::InsufficientAllowance));
    assert_eq!(token.balance(ALICE), 90);
    assert_eq!(token.total_supply(), 90);
}

#[test]
fn frozen_accounts_stand_still() {
    let mut token = deploy(0);
    mint(&mut token, ALICE, 100);
    mint(&mut token, BOB, 100);
    run(&mut token, Operation::Freeze { caller: ADMIN, addr: ALICE }).unwrap();
    assert!(token.is_frozen(ALICE));
    assert!(!token.is_frozen(BOB));
    let frozen = refused(RwaError::AccountFrozen);
    assert_eq!(run(&mut token, transfer(ALICE, BOB, 1)), frozen);
    assert_eq!(run(&mut token, transfer(BOB, ALICE, 1)), frozen);
    assert_eq!(run(&mut token, batch(BOB, &[(CAROL, 1), (ALICE, 1)])), frozen);
    assert_eq!(run(&mut token, Operation::Burn { from: ALICE, amount: 1 }), frozen);
    run(&mut token, Operation::Unfreeze { caller: ADMIN, addr: ALICE }).unwrap();
    assert!(!token.is_frozen(ALICE));
    assert_eq!(run(&mut token, transfer(ALICE, BOB, 1)), Ok(()));
    assert_eq!(token.balance(ALICE), 99);
}

fn allowance(token: &RwaToken, sequence: u32) -> i128 {
    let env =
        Env { sequence, timestamp: 0, contract: TOKEN, inbox: Vec::new(), log: Vec::new() };
    token.allowance(&env, ALICE, BOB)
}

#[test]
fn allowance_lapses_at_its_ledger() {
    let mut token = deploy(0);
    mint(&mut token, ALICE, 100);
    let approve = |amount: i128, expiration_ledger: u32| Operation::Approve {
        from: ALICE,
        spender: BOB,
        amount,
        expiration_ledger,
    };
    assert_eq!(run(&mut token, approve(50, 9)), refused(RwaError::AllowanceExpired));
    assert_eq!(run(&mut token, approve(50, 10)), Ok(()));
    assert_eq!(allowance(&token, 10), 0);
    assert_eq!(allowance(&token, 9), 50);
    assert_eq!(run(&mut token, approve(0, 0)), Ok(()));
    let (result, log) = run_at(&mut token, 10, favour, &approve(50, 20));
    assert_eq!(result, Ok(()));
    assert_eq!(
        events(&log),
        vec![Event::Approve { from: ALICE, spender: BOB, amount: 50, expiration_ledger: 20 }]
    );
    let spend = Operation::TransferFrom { spender: BOB, from: ALICE, to: CAROL, amount: 20 };
    assert_eq!(run_at(&mut token, 19, favour, &spend).0, Ok(()));
    assert_eq!(allowance(&token, 19), 30);
    assert_eq!(run_at(&mut token, 20, favour, &spend).0, refused(RwaError::InsufficientAllowance));
    assert_eq!(token.balance(CAROL), 20);
}

#[test]
fn nonce_is_used_once() {
    let mut token = deploy(0);
    let update = |nonce: u64| Operation::UpdateKycRegistry {
        caller: ADMIN,
        new_registry: DAVE,
        nonce,
    };
    assert_eq!(run(&mut token, update(1)), refused(RwaError::InvalidNonce));
    let (result, log) = run_at(&mut token, 10, favour, &update(0));
    assert_eq!(result, Ok(()));
    assert_eq!(events(&log), vec![Event::KycUpdated { new_registry: DAVE, nonce: 0 }]);
    assert_eq!(token.kyc_registry(), DAVE);
    assert_eq!(token.admin_nonce(), 1);
    assert_eq!(run(&mut token, update(0)), refused(RwaError::InvalidNonce));
    let engine = Operation::UpdateComplianceEngine { caller: ADMIN, new_engine: BOB, nonce: 1 };
    assert_eq!(run(&mut token, engine), Ok(()));
    assert_eq!(token.compliance_engine(), BOB);
    assert_eq!(token.admin_nonce(), 2);
    token.admin_nonce = u64::MAX;
    assert_eq!(run(&mut token, update(u64::MAX)), Err(Halt::Trap(Trap::ArithmeticOverflow)));
}

#[test]
fn handover_takes_two_steps() {
    let mut token = deploy(0);
    let propose = Operation::ProposeAdmin { caller: ADMIN, new_admin: ALICE, nonce: 0 };
    let (result, log) = run_at(&mut token, 10, favour, &propose);
    assert_eq!(result, Ok(()));
    assert_eq!(events(&log), vec![Event::AdminProposed { new_admin: ALICE, nonce: 0 }]);
    assert_eq!(token.admin, Some(ADMIN));
    let (result, log) = run_at(&mut token, 10, favour, &Operation::AcceptAdmin);
    assert_eq!(result, Ok(()));
    assert_eq!(calls(&log), vec![Call::RequireAuth { addr: ALICE }]);
    assert_eq!(
        events(&log),
        vec![Event::AdminAccepted { old_admin: ADMIN, new_admin: ALICE, nonce: 1 }]
    );
    assert_eq!(token.admin, Some(ALICE));
    assert_eq!(run(&mut token, Operation::AcceptAdmin), refused(RwaError::NoPendingAdmin));
    assert_eq!(
        run(&mut token, Operation::ProposeAdmin { caller: ADMIN, new_admin: BOB, nonce: 1 }),
        refused(RwaError::UnauthorizedRole)
    );
}

#[test]
fn replaced_admin_is_published_without_a_nonce() {
    let mut token = deploy(0);
    let replace = Operation::SetAdmin { new_admin: BOB };
    let (result, log) = run_at(&mut token, 10, favour, &replace);
    assert_eq!(result, Ok(()));
    let published = events(&log);
    assert_eq!(published, vec![Event::AdminSet { old_admin: ADMIN, new_admin: BOB }]);
    assert_eq!(published[0].topic(), "adm_set");
    assert_eq!(published[0].subjects(), Vec::new());
    assert_eq!(published[0].data(), vec![Value::Address(ADMIN), Value::Address(BOB)]);
    assert_eq!(token.admin, Some(BOB));
    assert_eq!(token.admin_nonce(), 0);
}

#[test]
fn token_without_admin_is_refused() {
    let mut token = deploy(0);
    token.admin = None;
    for operation in [
        Operation::SetAdmin { new_admin: BOB },
        Operation::Mint { caller: ADMIN, to: ALICE, amount: 1 },
        Operation::Freeze { caller: ADMIN, addr: ALICE },
        Operation::CancelRecovery,
    ] {
        assert_eq!(run(&mut token, operation), refused(RwaError::NotInitialized));
    }
}

#[test]
fn roles_delegate_one_duty_each() {
    let mut token = deploy(0);
    let duties = |caller: Address, nonce: u64| {
        [
            (
                ROLE_GOVERNANCE,
                Operation::ProposeAdmin { caller, new_admin: DAVE, nonce },
            ),
            (
                ROLE_REGISTRY,
                Operation::UpdateKycRegistry { caller, new_registry: DAVE, nonce },
            ),
            (ROLE_COMPLIANCE, Operation::Freeze { caller, addr: DAVE }),
            (ROLE_LIQUIDITY, Operation::Mint { caller, to: CAROL, amount: 1 }),
        ]
    };
    for (role, _) in duties(BOB, 0) {
        let nonce = token.admin_nonce();
        let assign = Operation::AssignRole { role: role.to_string(), holder: BOB, nonce };
        let (result, log) = run_at(&mut token, 10, favour, &assign);
        assert_eq!(result, Ok(()));
        let expected = Event::RoleAssigned { role: role.to_string(), holder: BOB, nonce };
        assert_eq!(events(&log), vec![expected]);
        assert_eq!(token.get_role_holder(role.to_string()), Some(BOB));
        for (needed, operation) in duties(BOB, token.admin_nonce()) {
            let result = run(&mut token, operation);
            if needed == role {
                assert_eq!(result, Ok(()));
            } else {
                assert_eq!(result, refused(RwaError::UnauthorizedRole));
            }
        }
        let nonce = token.admin_nonce();
        run(&mut token, Operation::RevokeRole { role: role.to_string(), nonce }).unwrap();
        assert_eq!(token.get_role_holder(role.to_string()), None);
    }
}

#[test]
fn metadata_is_set_by_key() {
    let mut token = deploy(0);
    let set = Operation::SetComplianceMetadata {
        caller: ADMIN,
        key: META_ISIN.to_string(),
        value: "XS2".to_string(),
        nonce: 0,
    };
    let (result, log) = run_at(&mut token, 10, favour, &set);
    assert_eq!(result, Ok(()));
    assert_eq!(events(&log), Vec::new());
    assert_eq!(token.get_compliance_metadata(META_ISIN.to_string()), "XS2");
    assert_eq!(token.get_compliance_metadata(META_GOVERNING_LAW.to_string()), "");
    assert_eq!(token.get_all_compliance_metadata().isin, Some("XS2".to_string()));
    assert_eq!(run(&mut token, set), refused(RwaError::InvalidNonce));
}

#[test]
fn uri_is_set_and_cleared() {
    let mut token = deploy(0);
    let set = |uri: &str| Operation::SetExternalUri { uri: uri.to_string() };
    let (_, log) = run_at(&mut token, 10, favour, &set("ipfs://x"));
    assert_eq!(events(&log), vec![Event::ExternalUri { uri: "ipfs://x".to_string() }]);
    assert_eq!(token.get_external_uri(), "ipfs://x");
    let (_, log) = run_at(&mut token, 10, favour, &set(""));
    assert_eq!(events(&log), vec![Event::ExternalUriCleared]);
    assert_eq!(token.get_external_uri(), "");
}

#[test]
fn migrations_are_recorded() {
    let mut token = deploy(0);
    let migrate = |version: &str, nonce: u64| Operation::Migrate {
        new_version: version.to_string(),
        description: "why".to_string(),
        nonce,
    };
    assert_eq!(run(&mut token, migrate("0.1.0", 0)), refused(RwaError::MigrationVersionConflict));
    assert_eq!(token.admin_nonce(), 0);
    let (result, log) = run_at(&mut token, 10, favour, &migrate("0.2.0", 0));
    assert_eq!(result, Ok(()));
    assert_eq!(
        events(&log),
        vec![Event::Migrated { new_version: "0.2.0".to_string(), nonce: 0 }]
    );
    run(&mut token, migrate("0.3.0", 1)).unwrap();
    assert_eq!(token.contract_version_info(), ("0.3.0".to_string(), 2, 1_000));
    let first = token.get_migration_record(0).unwrap();
    let second = token.get_migration_record(1).unwrap();
    assert_eq!(first.from_version, "0.1.0");
    assert_eq!(first.to_version, second.from_version);
    assert_eq!(second.timestamp, 1_000);
    assert_eq!(
        token.get_migration_record(2).err(),
        Some(Halt::Trap(Trap::MigrationRecordNotFound))
    );
    assert_eq!(token.version(), "0.1.0");
}

#[test]
fn schema_goes_up_by_one() {
    let mut token = deploy(0);
    let migrate = |to_version: u32, nonce: u64| Operation::MigrateSchema {
        to_version,
        description: "why".to_string(),
        nonce,
    };
    let conflict = refused(RwaError::MigrationVersionConflict);
    let skipped = refused(RwaError::MigrationVersionNotSequential);
    assert_eq!(run(&mut token, migrate(1, 0)), conflict);
    assert_eq!(run(&mut token, migrate(0, 0)), skipped);
    assert_eq!(run(&mut token, migrate(3, 0)), skipped);
    let (result, log) = run_at(&mut token, 10, favour, &migrate(2, 0));
    assert_eq!(result, Ok(()));
    assert_eq!(events(&log), vec![Event::SchemaMigrated { from_version: 1, to_version: 2 }]);
    assert_eq!(
        token.get_schema_migration_record(1).err(),
        Some(Halt::Trap(Trap::SchemaMigrationRecordNotFound))
    );
    token.schema_version = u32::MAX;
    assert_eq!(run(&mut token, migrate(0, 1)), skipped);
    assert_eq!(run(&mut token, migrate(u32::MAX, 1)), conflict);
}

fn guarded(threshold: u32, cooldown: u32) -> RwaToken {
    let mut token = deploy(0);
    let members = vec![ALICE, BOB, CAROL];
    run(&mut token, Operation::ConfigureRecovery { threshold, members, cooldown }).unwrap();
    token
}

#[test]
fn recovery_needs_configuration_and_guardians() {
    let mut token = deploy(0);
    assert_eq!(
        run(&mut token, Operation::ProposeRecovery { caller: ALICE, proposed_admin: DAVE }),
        refused(RwaError::RecoveryNotConfigured)
    );
    assert_eq!(
        run(&mut token, Operation::ApproveRecovery { caller: ALICE }),
        refused(RwaError::RecoveryNotConfigured)
    );
    assert_eq!(
        run(&mut token, Operation::ExecuteRecovery { caller: ALICE }),
        refused(RwaError::RecoveryNotConfigured)
    );
    assert_eq!(
        token.recovery_config().err(),
        Some(Halt::Error(RwaError::RecoveryNotConfigured))
    );
    assert_eq!(
        token.recovery_members().err(),
        Some(Halt::Error(RwaError::RecoveryNotConfigured))
    );
    let mut token = guarded(2, 100);
    assert_eq!(token.recovery_members(), Ok(vec![ALICE, BOB, CAROL]));
    assert_eq!(token.recovery_threshold, Some(2));
    for operation in [
        Operation::ProposeRecovery { caller: DAVE, proposed_admin: DAVE },
        Operation::ApproveRecovery { caller: DAVE },
        Operation::ExecuteRecovery { caller: DAVE },
    ] {
        assert_eq!(run(&mut token, operation), refused(RwaError::NotRecoveryMember));
    }
    for operation in [
        Operation::ApproveRecovery { caller: BOB },
        Operation::ExecuteRecovery { caller: BOB },
        Operation::CancelRecovery,
    ] {
        assert_eq!(run(&mut token, operation), refused(RwaError::NoActiveRecovery));
    }
}

#[test]
fn listed_twice_is_one_guardian() {
    let mut token = deploy(0);
    let members = vec![ALICE, BOB, BOB];
    run(&mut token, Operation::ConfigureRecovery { threshold: 2, members, cooldown: 0 }).unwrap();
    assert_eq!(
        run(&mut token, Operation::ProposeRecovery { caller: ALICE, proposed_admin: DAVE }),
        refused(RwaError::InvalidRecoveryConfig)
    );
}

#[test]
fn recovery_runs_its_course() {
    let mut token = guarded(2, 100);
    let propose = Operation::ProposeRecovery { caller: ALICE, proposed_admin: DAVE };
    let (result, log) = run_at(&mut token, 200, favour, &propose);
    assert_eq!(result, Ok(()));
    assert_eq!(
        events(&log),
        vec![Event::RecoveryProposed { proposed_admin: DAVE, expiry_ledger: 250 }]
    );
    assert_eq!(
        run_at(&mut token, 250, favour, &propose).0,
        refused(RwaError::RecoveryAlreadyActive)
    );
    let approve = |caller: Address| Operation::ApproveRecovery { caller };
    let execute = Operation::ExecuteRecovery { caller: ALICE };
    assert_eq!(
        run_at(&mut token, 200, favour, &approve(ALICE)).0,
        refused(RwaError::ProposerCannotApprove)
    );
    let (_, log) = run_at(&mut token, 200, favour, &approve(BOB));
    assert_eq!(
        events(&log),
        vec![Event::RecoveryApproved { approver: BOB, approval_count: 1 }]
    );
    assert_eq!(
        run_at(&mut token, 200, favour, &approve(BOB)).0,
        refused(RwaError::AlreadyApproved)
    );
    assert_eq!(
        run_at(&mut token, 200, favour, &execute).0,
        refused(RwaError::InsufficientApprovals)
    );
    assert_eq!(
        run_at(&mut token, 251, favour, &approve(CAROL)).0,
        refused(RwaError::RecoveryExpired)
    );
    run_at(&mut token, 250, favour, &approve(CAROL)).0.unwrap();
    assert_eq!(
        run_at(&mut token, 251, favour, &execute).0,
        refused(RwaError::RecoveryExpired)
    );
    let (result, log) = run_at(&mut token, 250, favour, &execute);
    assert_eq!(result, Ok(()));
    assert_eq!(
        events(&log),
        vec![Event::RecoveryExecuted { old_admin: ADMIN, new_admin: DAVE }]
    );
    assert_eq!(token.admin, Some(DAVE));
    assert_eq!(token.admin_nonce(), 1);
    assert_eq!(token.active_recovery(), None);
    assert_eq!(token.recovery_config().unwrap().last_executed_ledger, 250);

    // What the old admin had prepared is void, even with the new admin's help.
    assert_eq!(
        run(&mut token, Operation::RevokeRole { role: "registry".to_string(), nonce: 0 }),
        refused(RwaError::InvalidNonce)
    );

    // The cooldown outlasts a new configuration.
    let members = vec![ALICE, BOB, CAROL];
    run(&mut token, Operation::ConfigureRecovery { threshold: 2, members, cooldown: 100 }).unwrap();
    run_at(&mut token, 310, favour, &propose).0.unwrap();
    run_at(&mut token, 310, favour, &approve(BOB)).0.unwrap();
    run_at(&mut token, 310, favour, &approve(CAROL)).0.unwrap();
    assert_eq!(
        run_at(&mut token, 349, favour, &execute).0,
        refused(RwaError::RecoveryCooldown)
    );
    assert_eq!(run_at(&mut token, 350, favour, &execute).0, Ok(()));
}

#[test]
fn recovery_is_cancelled_by_the_admin() {
    let mut token = guarded(2, 100);
    run(&mut token, Operation::ProposeRecovery { caller: ALICE, proposed_admin: DAVE }).unwrap();
    let (result, log) = run_at(&mut token, 10, favour, &Operation::CancelRecovery);
    assert_eq!(result, Ok(()));
    assert_eq!(calls(&log), vec![Call::RequireAuth { addr: ADMIN }]);
    assert_eq!(events(&log), vec![Event::RecoveryCancelled]);
    assert_eq!(
        run(&mut token, Operation::ApproveRecovery { caller: BOB }),
        refused(RwaError::NoActiveRecovery)
    );
}

#[test]
fn configuration_has_limits() {
    let mut token = deploy(0);
    let configure = |threshold: u32, n: u64| Operation::ConfigureRecovery {
        threshold,
        members: (0..n).map(|i| Address { id: 100 + i }).collect(),
        cooldown: 5,
    };
    let invalid = refused(RwaError::InvalidRecoveryConfig);
    assert_eq!(run(&mut token, configure(1, 3)), invalid);
    assert_eq!(run(&mut token, configure(4, 3)), invalid);
    assert_eq!(run(&mut token, configure(2, 11)), invalid);
    assert_eq!(run(&mut token, configure(0, 0)), invalid);
    let (result, log) = run_at(&mut token, 10, favour, &configure(10, 10));
    assert_eq!(result, Ok(()));
    assert_eq!(
        events(&log),
        vec![Event::RecoveryConfigured { threshold: 10, member_count: 10 }]
    );
}

#[test]
fn kyc_snapshot_tells_what_holds_now() {
    let token = deploy(0);
    let look = |reply: Reply, timestamp: u64| {
        let mut env = Env {
            sequence: 1,
            timestamp,
            contract: TOKEN,
            inbox: vec![reply.clone(), reply],
            log: Vec::new(),
        };
        let snapshot = token.check_kyc_status(&mut env, ALICE);
        let active = token.sync_kyc_status(&mut env, ALICE);
        (snapshot, active, env.log)
    };
    let cases = [
        (KycStatusMirror::Approved, 0, true),
        (KycStatusMirror::Approved, 500, true),
        (KycStatusMirror::Approved, 499, false),
        (KycStatusMirror::Pending, 0, false),
        (KycStatusMirror::Rejected, 900, false),
        (KycStatusMirror::Revoked, 900, false),
    ];
    for (status, expiry, is_active) in cases {
        let (snapshot, active, log) = look(Reply::Record(record(status, expiry)), 500);
        let snapshot = snapshot.unwrap();
        assert_eq!(snapshot.is_active, is_active);
        assert_eq!(snapshot.status, status);
        assert_eq!(snapshot.tier, 2);
        assert_eq!(snapshot.expiry, expiry);
        assert_eq!(snapshot.jurisdiction, "CH");
        assert_eq!(snapshot.checked_at, 500);
        assert_eq!(active, Ok(is_active));
        assert_eq!(events(&log), vec![Event::KycStale { addr: ALICE, is_active, expiry }]);
        assert_eq!(calls(&log)[0], Call::GetRecord { registry: REGISTRY, addr: ALICE });
    }
    let (snapshot, active, log) = look(Reply::Failed, 500);
    let unavailable = Halt::Error(RwaError::KycRegistryUnavailable);
    assert_eq!(snapshot.err(), Some(unavailable));
    assert_eq!(active, Err(unavailable));
    assert_eq!(events(&log), Vec::new());
}

#[test]
fn events_have_topics_and_data() {
    let transfer = Event::Transfer { from: ALICE, to: BOB, amount: 7, timestamp: 9 };
    assert_eq!(transfer.topic(), "transfer");
    assert_eq!(transfer.subjects(), vec![ALICE, BOB]);
    assert_eq!(transfer.data(), vec![Value::I128(7), Value::U64(9)]);
    let role = Event::RoleAssigned { role: "registry".to_string(), holder: BOB, nonce: 3 };
    assert_eq!(role.topic(), "role_set");
    assert_eq!(role.subjects(), Vec::new());
    assert_eq!(
        role.data(),
        vec![Value::Symbol("registry".to_string()), Value::Address(BOB), Value::U64(3)]
    );
    let topics = [
        (Event::Mint { to: ALICE, amount: 1, timestamp: 0 }, "mint"),
        (Event::Burn { from: ALICE, amount: 1, timestamp: 0 }, "burn"),
        (
            Event::Approve { from: ALICE, spender: BOB, amount: 1, expiration_ledger: 2 },
            "approve",
        ),
        (Event::Freeze { addr: ALICE }, "freeze"),
        (Event::Unfreeze { addr: ALICE }, "unfreeze"),
        (Event::AdminProposed { new_admin: BOB, nonce: 0 }, "adm_prp"),
        (Event::PendingAdminCleared, "adm_clr"),
        (Event::AdminSet { old_admin: ADMIN, new_admin: BOB }, "adm_set"),
        (Event::AdminAccepted { old_admin: ADMIN, new_admin: BOB, nonce: 0 }, "adm_set"),
        (Event::KycUpdated { new_registry: BOB, nonce: 0 }, "kyc_upd"),
        (Event::CeUpdated { new_engine: BOB, nonce: 0 }, "ce_upd"),
        (Event::RoleRevoked { role: "x".to_string(), nonce: 0 }, "role_rev"),
        (Event::RecoveryConfigured { threshold: 2, member_count: 3 }, "rcv_cfg"),
        (Event::RecoveryProposed { proposed_admin: BOB, expiry_ledger: 1 }, "rcv_prp"),
        (Event::RecoveryApproved { approver: BOB, approval_count: 1 }, "rcv_apv"),
        (Event::RecoveryExecuted { old_admin: ADMIN, new_admin: BOB }, "rcv_exe"),
        (Event::RecoveryCancelled, "rcv_can"),
        (Event::ExternalUri { uri: "u".to_string() }, "ext_uri"),
        (Event::ExternalUriCleared, "ext_uri_cleared"),
        (Event::KycStale { addr: ALICE, is_active: true, expiry: 0 }, "kyc_stale"),
        (Event::Migrated { new_version: "v".to_string(), nonce: 0 }, "migrated"),
        (Event::SchemaMigrated { from_version: 1, to_version: 2 }, "migrated"),
    ];
    for (event, topic) in topics {
        assert_eq!(event.topic(), topic);
    }
}
