//! Tests of the token against a registry and an engine that keep real state.

use std::cell::Cell;

use rwa_token::{
    Address, Call, ComplianceMetadata, ComplianceRulesMirror, DenyReason, Effect, Env, Event, Halt,
    KycRecord, KycStatusMirror, KycSyncStatus, RecipientEntry, Reply, RwaError, RwaToken,
    TransferDecision, Value, META_ISIN, META_LEGAL_ENTITY,
};

const REGISTRY: Address = Address { id: 1 };
const ENGINE: Address = Address { id: 2 };
const TOKEN: Address = Address { id: 3 };
const ADMIN: Address = Address { id: 4 };

/// A KYC registry.
#[derive(Clone)]
struct Registry {
    records: Vec<(Address, KycRecord)>,
}

impl Registry {
    fn approve(&mut self, addr: Address, tier: u32, expiry: u64, jurisdiction: &str) {
        self.records.retain(|(known, _)| *known != addr);
        self.records.push((
            addr,
            KycRecord {
                status: KycStatusMirror::Approved,
                tier,
                expiry,
                jurisdiction: jurisdiction.to_string(),
            },
        ));
    }

    fn record_mut(&mut self, addr: Address) -> &mut KycRecord {
        &mut self.records.iter_mut().find(|(known, _)| *known == addr).unwrap().1
    }

    fn revoke(&mut self, addr: Address) {
        self.record_mut(addr).status = KycStatusMirror::Revoked;
    }

    fn update_tier(&mut self, addr: Address, tier: u32) {
        self.record_mut(addr).tier = tier;
    }

    fn get_record(&self, addr: Address) -> Option<KycRecord> {
        self.records.iter().find(|(known, _)| *known == addr).map(|(_, record)| record.clone())
    }

    fn is_approved(&self, addr: Address, now: u64) -> bool {
        match self.get_record(addr) {
            Some(record) => {
                record.status == KycStatusMirror::Approved
                    && (record.expiry == 0 || record.expiry >= now)
            }
            None => false,
        }
    }
}

/// A compliance engine.
#[derive(Clone)]
struct Engine {
    rules: ComplianceRulesMirror,
    holders: Vec<Address>,
}

impl Engine {
    fn set_rules(&mut self, rules: ComplianceRulesMirror) {
        self.rules = rules;
    }

    fn pause(&mut self) {
        self.rules.paused = true;
    }

    fn unpause(&mut self) {
        self.rules.paused = false;
    }

    fn holder_count(&self) -> u32 {
        self.holders.len() as u32
    }

    fn objection(&self, to: Address, amount: i128) -> Option<DenyReason> {
        let full = self.rules.max_holders > 0 && self.holder_count() >= self.rules.max_holders;
        if self.rules.paused {
            Some(DenyReason::CompliancePaused)
        } else if self.rules.max_transfer_amount > 0 && amount > self.rules.max_transfer_amount {
            Some(DenyReason::AmountExceeded)
        } else if full && !self.holders.contains(&to) {
            Some(DenyReason::MaxHoldersReached)
        } else {
            None
        }
    }
}

/// A token with its registry, its engine and a ledger. Everybody authorizes
/// everything.
struct Harness {
    token: RwaToken,
    kyc: Registry,
    compliance: Engine,
    admin: Address,
    sequence: u32,
    timestamp: u64,
    events: Vec<Event>,
    next_id: Cell<u64>,
}

fn deploy(
    name: &str,
    symbol: &str,
    asset_type: &str,
    compliance_metadata: Option<ComplianceMetadata>,
    max_supply: i128,
) -> Result<RwaToken, Halt> {
    RwaToken::__constructor(
        ADMIN,
        7,
        name.to_string(),
        symbol.to_string(),
        asset_type.to_string(),
        REGISTRY,
        ENGINE,
        compliance_metadata,
        max_supply,
    )
}

fn setup() -> Harness {
    Harness {
        token: deploy("Veritoken RWA", "VTRWA", "property", None, 0).unwrap(),
        kyc: Registry { records: Vec::new() },
        compliance: Engine {
            rules: ComplianceRulesMirror {
                max_transfer_amount: 0,
                min_holding_period: 0,
                max_holders: 0,
                require_same_jurisdiction: false,
                paused: false,
                allowlist_mode: false,
                max_holding_period: 0,
            },
            holders: Vec::new(),
        },
        admin: ADMIN,
        sequence: 0,
        timestamp: 0,
        events: Vec::new(),
        next_id: Cell::new(100),
    }
}

fn refused(error: RwaError) -> Result<(), Halt> {
    Err(Halt::Error(error))
}

impl Harness {
    fn generate(&self) -> Address {
        self.next_id.set(self.next_id.get() + 1);
        Address { id: self.next_id.get() }
    }

    fn answer(&mut self, call: Call) -> Reply {
        match call {
            Call::RequireAuth { .. } => Reply::Done,
            Call::IsApproved { addr, .. } => {
                Reply::Flag(self.kyc.is_approved(addr, self.timestamp))
            }
            Call::GetRecord { addr, .. } => match self.kyc.get_record(addr) {
                Some(record) => Reply::Record(record),
                None => Reply::Failed,
            },
            Call::EvaluateTransfer { from, to, amount, .. } => {
                let denied = if !self.kyc.is_approved(from, self.timestamp) {
                    Some(DenyReason::FromKycMissing)
                } else if !self.kyc.is_approved(to, self.timestamp) {
                    Some(DenyReason::ToKycMissing)
                } else {
                    self.compliance.objection(to, amount)
                };
                Reply::Decision(match denied {
                    Some(reason) => TransferDecision::Deny(reason),
                    None => TransferDecision::Allow,
                })
            }
            Call::CanTransfer { to, amount, .. } => {
                Reply::Flag(self.compliance.objection(to, amount).is_none())
            }
            Call::GetRules { .. } => Reply::Rules(self.compliance.rules),
            Call::HolderCount { .. } => Reply::Count(self.compliance.holder_count()),
            Call::RegisterHolder { addr, .. } => {
                if !self.compliance.holders.contains(&addr) {
                    self.compliance.holders.push(addr);
                }
                Reply::Done
            }
            Call::UnregisterHolder { addr, .. } => {
                self.compliance.holders.retain(|holder| *holder != addr);
                Reply::Done
            }
        }
    }

    /// Runs an entry point call by call. If it fails, what it told the engine
    /// is undone.
    fn run<T>(
        &mut self,
        entry: impl Fn(&mut RwaToken, &mut Env) -> Result<T, Halt>,
    ) -> Result<T, Halt> {
        let engine_before = self.compliance.clone();
        let mut replies: Vec<Reply> = Vec::new();
        loop {
            let mut env = Env {
                sequence: self.sequence,
                timestamp: self.timestamp,
                contract: TOKEN,
                inbox: replies.clone(),
                log: Vec::new(),
            };
            match entry(&mut self.token, &mut env) {
                Ok(value) => {
                    for effect in env.log {
                        if let Effect::Event(event) = effect {
                            self.events.push(event);
                        }
                    }
                    return Ok(value);
                }
                Err(Halt::Pending) => {
                    let call = match env.log.last() {
                        Some(Effect::Call(call)) => *call,
                        _ => panic!("no call to answer"),
                    };
                    let reply = self.answer(call);
                    replies.push(reply);
                }
                Err(halt) => {
                    self.compliance = engine_before;
                    return Err(halt);
                }
            }
        }
    }

    fn last_event(&self, topic: &str) -> Option<&Event> {
        self.events.iter().rev().find(|event| event.topic() == topic)
    }

    fn approve_kyc(&mut self, addr: Address) {
        self.kyc.approve(addr, 1, 0, "US");
    }

    /// Mints as the admin.
    fn mint(&mut self, to: Address, amount: i128) {
        self.mint_as(self.admin, to, amount).unwrap();
    }

    /// Freezes as the admin.
    fn freeze(&mut self, addr: Address) {
        let admin = self.admin;
        self.run(|token, env| token.freeze(env, admin, addr)).unwrap();
    }

    fn next_nonce(&self) -> u64 {
        self.token.admin_nonce()
    }

    fn set_max_holders(&mut self, max_holders: u32) {
        self.compliance.set_rules(ComplianceRulesMirror {
            max_transfer_amount: 0,
            min_holding_period: 0,
            max_holders,
            require_same_jurisdiction: false,
            paused: false,
            allowlist_mode: false,
            max_holding_period: 0,
        });
    }

    fn mint_as(&mut self, caller: Address, to: Address, amount: i128) -> Result<(), Halt> {
        self.run(|token, env| token.mint(env, caller, to, amount))
    }

    fn transfer(&mut self, from: Address, to: Address, amount: i128) -> Result<(), Halt> {
        self.run(|token, env| token.transfer(env, from, to, amount))
    }

    fn transfer_from(
        &mut self,
        spender: Address,
        from: Address,
        to: Address,
        amount: i128,
    ) -> Result<(), Halt> {
        self.run(|token, env| token.transfer_from(env, spender, from, to, amount))
    }

    fn batch_transfer(
        &mut self,
        from: Address,
        recipients: Vec<RecipientEntry>,
    ) -> Result<(), Halt> {
        self.run(|token, env| token.batch_transfer(env, from, recipients.clone()))
    }

    fn batch_transfer_from(
        &mut self,
        spender: Address,
        from: Address,
        recipients: Vec<RecipientEntry>,
    ) -> Result<(), Halt> {
        self.run(|token, env| token.batch_transfer_from(env, spender, from, recipients.clone()))
    }

    fn approve(
        &mut self,
        from: Address,
        spender: Address,
        amount: i128,
        expiration_ledger: u32,
    ) -> Result<(), Halt> {
        self.run(|token, env| token.approve(env, from, spender, amount, expiration_ledger))
    }

    fn allowance(&self, from: Address, spender: Address) -> i128 {
        let env = Env {
            sequence: self.sequence,
            timestamp: self.timestamp,
            contract: TOKEN,
            inbox: Vec::new(),
            log: Vec::new(),
        };
        self.token.allowance(&env, from, spender)
    }

    fn burn(&mut self, from: Address, amount: i128) -> Result<(), Halt> {
        self.run(|token, env| token.burn(env, from, amount))
    }

    fn set_admin(&mut self, new_admin: Address) -> Result<(), Halt> {
        self.run(|token, env| token.set_admin(env, new_admin))
    }

    fn propose_admin(
        &mut self,
        caller: Address,
        new_admin: Address,
        nonce: u64,
    ) -> Result<(), Halt> {
        self.run(|token, env| token.propose_admin(env, caller, new_admin, nonce))
    }

    fn accept_admin(&mut self) -> Result<(), Halt> {
        self.run(|token, env| token.accept_admin(env))
    }

    fn set_compliance_metadata(
        &mut self,
        caller: Address,
        key: &str,
        value: &str,
        nonce: u64,
    ) -> Result<(), Halt> {
        self.run(|token, env| {
            token.set_compliance_metadata(env, caller, key.to_string(), value.to_string(), nonce)
        })
    }

    fn set_external_uri(&mut self, uri: &str) -> Result<(), Halt> {
        self.run(|token, env| token.set_external_uri(env, uri.to_string()))
    }

    fn migrate(
        &mut self,
        new_version: &str,
        description: &str,
        nonce: u64,
    ) -> Result<(), Halt> {
        self.run(|token, env| {
            token.migrate(env, new_version.to_string(), description.to_string(), nonce)
        })
    }

    fn migrate_schema(
        &mut self,
        to_version: u32,
        description: &str,
        nonce: u64,
    ) -> Result<(), Halt> {
        self.run(|token, env| {
            token.migrate_schema(env, to_version, description.to_string(), nonce)
        })
    }

    fn check_kyc_status(&mut self, addr: Address) -> Result<KycSyncStatus, Halt> {
        self.run(|token, env| token.check_kyc_status(env, addr))
    }

    fn sync_kyc_status(&mut self, addr: Address) -> Result<bool, Halt> {
        self.run(|token, env| token.sync_kyc_status(env, addr))
    }

    fn configure_recovery(
        &mut self,
        threshold: u32,
        members: Vec<Address>,
        cooldown: u32,
    ) -> Result<(), Halt> {
        self.run(|token, env| token.configure_recovery(env, threshold, members.clone(), cooldown))
    }

    fn propose_recovery(&mut self, caller: Address, proposed_admin: Address) -> Result<(), Halt> {
        self.run(|token, env| token.propose_recovery(env, caller, proposed_admin))
    }

    fn approve_recovery(&mut self, caller: Address) -> Result<(), Halt> {
        self.run(|token, env| token.approve_recovery(env, caller))
    }

    fn execute_recovery(&mut self, caller: Address) -> Result<(), Halt> {
        self.run(|token, env| token.execute_recovery(env, caller))
    }

    fn cancel_recovery(&mut self) -> Result<(), Halt> {
        self.run(|token, env| token.cancel_recovery(env))
    }
}

#[test]
fn test_metadata() {
    let h = setup();
    assert_eq!(h.token.decimals(), 7);
    assert_eq!(h.token.name(), "Veritoken RWA");
    assert_eq!(h.token.symbol(), "VTRWA");
    assert_eq!(h.token.asset_type(), "property");
    assert_eq!(h.token.total_supply(), 0);
}

#[test]
fn test_mint_requires_kyc() {
    let mut h = setup();
    let user = h.generate();

    // Without KYC, mint should fail
    let res = h.mint_as(h.admin, user, 1_000);
    assert!(res.is_err());

    // With KYC, mint succeeds
    h.approve_kyc(user);
    h.mint(user, 1_000);
    assert_eq!(h.token.balance(user), 1_000);
    assert_eq!(h.token.total_supply(), 1_000);
}

#[test]
fn test_transfer_happy_path() {
    let mut h = setup();
    let alice = h.generate();
    let bob = h.generate();
    h.approve_kyc(alice);
    h.approve_kyc(bob);

    h.mint(alice, 1_000);
    h.transfer(alice, bob, 400).unwrap();

    assert_eq!(h.token.balance(alice), 600);
    assert_eq!(h.token.balance(bob), 400);
}

#[test]
fn test_transfer_blocked_without_kyc_on_receiver() {
    let mut h = setup();
    let alice = h.generate();
    let bob = h.generate(); // no KYC
    h.approve_kyc(alice);
    h.mint(alice, 1_000);

    let res = h.transfer(alice, bob, 100);
    assert!(res.is_err());
}

#[test]
fn test_transfer_while_paused() {
    let mut h = setup();
    let alice = h.generate();
    let bob = h.generate();
    h.approve_kyc(alice);
    h.approve_kyc(bob);
    h.mint(alice, 1_000);

    h.compliance.pause();
    assert_eq!(h.transfer(alice, bob, 100), refused(RwaError::TransferBlocked));
}

#[test]
fn test_transfer_blocked_when_compliance_paused() {
    let mut h = setup();
    let alice = h.generate();
    let bob = h.generate();
    h.approve_kyc(alice);
    h.approve_kyc(bob);
    h.mint(alice, 1_000);

    h.compliance.pause();
    let res = h.transfer(alice, bob, 100);
    assert!(res.is_err());

    h.compliance.unpause();
    h.transfer(alice, bob, 100).unwrap();
    assert_eq!(h.token.balance(bob), 100);
}

#[test]
fn test_transfer_blocked_by_max_amount() {
    let mut h = setup();
    let alice = h.generate();
    let bob = h.generate();
    h.approve_kyc(alice);
    h.approve_kyc(bob);
    h.mint(alice, 1_000);

    h.compliance.set_rules(ComplianceRulesMirror {
        max_transfer_amount: 50,
        min_holding_period: 0,
        max_holders: 0,
        require_same_jurisdiction: false,
        paused: false,
        allowlist_mode: false,
        max_holding_period: 0,
    });

    assert!(h.transfer(alice, bob, 51).is_err());
    h.transfer(alice, bob, 50).unwrap();
    assert_eq!(h.token.balance(bob), 50);
}

#[test]
fn test_max_holder_cap_blocks_new_holder_and_maintains_count() {
    let mut h = setup();
    let alice = h.generate();
    let bob = h.generate();
    let charlie = h.generate();
    h.approve_kyc(alice);
    h.approve_kyc(bob);
    h.approve_kyc(charlie);

    h.compliance.set_rules(ComplianceRulesMirror {
        max_transfer_amount: 0,
        min_holding_period: 0,
        max_holders: 2,
        require_same_jurisdiction: false,
        paused: false,
        allowlist_mode: false,
        max_holding_period: 0,
    });

    h.mint(alice, 1_000);
    assert_eq!(h.compliance.holder_count(), 1);

    h.transfer(alice, bob, 400).unwrap();
    assert_eq!(h.compliance.holder_count(), 2);
    assert!(h.transfer(alice, charlie, 1).is_err());

    h.transfer(alice, bob, 600).unwrap();
    assert_eq!(h.token.balance(alice), 0);
    assert_eq!(h.compliance.holder_count(), 1);

    h.transfer(bob, charlie, 1).unwrap();
    assert_eq!(h.compliance.holder_count(), 2);
    assert_eq!(h.token.balance(charlie), 1);
}

#[test]
fn test_max_holders_blocks_new_holders_via_token() {
    let mut h = setup();
    let alice = h.generate();
    let bob = h.generate();
    let charlie = h.generate();
    h.approve_kyc(alice);
    h.approve_kyc(bob);
    h.approve_kyc(charlie);

    h.compliance.set_rules(ComplianceRulesMirror {
        max_transfer_amount: 0,
        min_holding_period: 0,
        max_holders: 2,
        require_same_jurisdiction: false,
        paused: false,
        allowlist_mode: false,
        max_holding_period: 0,
    });

    // First two distinct holders fill the cap.
    h.mint(alice, 1_000);
    h.mint(bob, 1_000);
    assert_eq!(h.compliance.holder_count(), 2);

    // A mint to a third distinct holder must be rejected by the compliance engine.
    assert!(h.mint_as(h.admin, charlie, 1_000).is_err());

    // The failed mint leaves the holder count unchanged.
    assert_eq!(h.compliance.holder_count(), 2);
    assert_eq!(h.token.balance(charlie), 0);
}

#[test]
fn test_approve_and_transfer_from() {
    let mut h = setup();
    let alice = h.generate();
    let bob = h.generate();
    let spender = h.generate();
    h.approve_kyc(alice);
    h.approve_kyc(bob);
    h.mint(alice, 1_000);

    let expiration = h.sequence + 1_000;
    h.approve(alice, spender, 300, expiration).unwrap();
    assert_eq!(h.allowance(alice, spender), 300);

    h.transfer_from(spender, alice, bob, 200).unwrap();
    assert_eq!(h.token.balance(bob), 200);
    assert_eq!(h.token.balance(alice), 800);
    assert_eq!(h.allowance(alice, spender), 100);
}

#[test]
fn test_allowance_expired_at_expiration_ledger() {
    let mut h = setup();
    let alice = h.generate();
    let bob = h.generate();
    let spender = h.generate();
    h.approve_kyc(alice);
    h.approve_kyc(bob);
    h.mint(alice, 1_000);

    // Allowance expires at the current ledger sequence — it must already be
    // treated as expired, not valid for one more ledger.
    let current_sequence = h.sequence;
    h.approve(alice, spender, 300, current_sequence).unwrap();

    assert_eq!(h.allowance(alice, spender), 0);
    assert!(h.transfer_from(spender, alice, bob, 100).is_err());
}

#[test]
fn test_allowance_valid_one_ledger_before_expiration() {
    let mut h = setup();
    let alice = h.generate();
    let bob = h.generate();
    let spender = h.generate();
    h.approve_kyc(alice);
    h.approve_kyc(bob);
    h.mint(alice, 1_000);

    let current_sequence = h.sequence;
    h.approve(alice, spender, 300, current_sequence + 1).unwrap();

    h.transfer_from(spender, alice, bob, 100).unwrap();
    assert_eq!(h.token.balance(bob), 100);
    assert_eq!(h.allowance(alice, spender), 200);
}

#[test]
fn test_spend_allowance_to_zero_removes_storage_entry() {
    let mut h = setup();
    let alice = h.generate();
    let bob = h.generate();
    let spender = h.generate();
    h.approve_kyc(alice);
    h.approve_kyc(bob);
    h.mint(alice, 1_000);

    let expiration = h.sequence + 1_000;
    h.approve(alice, spender, 100, expiration).unwrap();
    h.transfer_from(spender, alice, bob, 100).unwrap();

    assert_eq!(h.allowance(alice, spender), 0);

    assert!(h.token.allowances.get(&(alice, spender)).is_none());
}

#[test]
fn test_burn_reduces_supply() {
    let mut h = setup();
    let alice = h.generate();
    h.approve_kyc(alice);
    h.mint(alice, 1_000);

    h.burn(alice, 400).unwrap();
    assert_eq!(h.token.balance(alice), 600);
    assert_eq!(h.token.total_supply(), 600);
}

#[test]
fn test_set_admin() {
    let mut h = setup();
    let new_admin = h.generate();
    h.set_admin(new_admin).unwrap();
    // New admin can mint after KYC approval of a holder
    let user = h.generate();
    h.approve_kyc(user);
    h.mint_as(new_admin, user, 1).unwrap();
    assert_eq!(h.token.balance(user), 1);
}

#[test]
fn test_compliance_metadata() {
    let mut h = setup();
    let nonce = h.next_nonce();
    let key = "legal";
    h.set_compliance_metadata(h.admin, key, "prospectus-v1", nonce)
        .unwrap();
    assert_eq!(h.token.get_compliance_metadata(key.to_string()), "prospectus-v1");
}

#[test]
fn test_non_deployer_cannot_reinitialize() {
    let h = setup();
    let attacker = h.generate();
    let kyc_id = h.token.kyc_registry();
    let ce_id = h.token.compliance_engine();
    // initialize is always refused: the constructor has already run
    let result = h.token.initialize(
        attacker,
        7,
        "Evil Token".to_string(),
        "EVIL".to_string(),
        "property".to_string(),
        kyc_id,
        ce_id,
    );
    assert!(result.is_err());
}

#[test]
fn test_get_all_compliance_metadata_returns_empty_when_unset() {
    let h = setup();
    let meta = h.token.get_all_compliance_metadata();
    assert!(meta.legal_entity.is_none());
    assert!(meta.governing_law.is_none());
    assert!(meta.isin.is_none());
    assert!(meta.prospectus_hash.is_none());
}

#[test]
fn test_get_all_compliance_metadata_returns_set_fields() {
    let mut h = setup();
    let key_entity = META_LEGAL_ENTITY;
    let key_isin = META_ISIN;
    h.set_compliance_metadata(h.admin, key_entity, "Acme Corp", 0).unwrap();
    h.set_compliance_metadata(h.admin, key_isin, "US1234567890", 1).unwrap();
    let meta = h.token.get_all_compliance_metadata();
    assert_eq!(meta.legal_entity, Some("Acme Corp".to_string()));
    assert_eq!(meta.isin, Some("US1234567890".to_string()));
    assert!(meta.governing_law.is_none());
    assert!(meta.prospectus_hash.is_none());
}

#[test]
fn test_constructor_sets_compliance_metadata() {
    let token = deploy(
        "Invoice Token",
        "IVTK",
        "invoice",
        Some(ComplianceMetadata {
            legal_entity: Some("Issuer LLC".to_string()),
            governing_law: Some("New York".to_string()),
            isin: None,
            prospectus_hash: None,
        }),
        0, // max_supply: 0 = unlimited
    )
    .unwrap();
    let meta = token.get_all_compliance_metadata();
    assert_eq!(meta.legal_entity, Some("Issuer LLC".to_string()));
    assert_eq!(meta.governing_law, Some("New York".to_string()));
    assert!(meta.isin.is_none());
}

#[test]
fn test_mint_twice_same_address_holder_count_is_one() {
    let mut h = setup();
    let user = h.generate();
    h.approve_kyc(user);

    h.mint(user, 1_000);
    h.mint(user, 500);

    assert_eq!(h.compliance.holder_count(), 1);
    assert_eq!(h.token.balance(user), 1_500);
    assert_eq!(h.token.total_supply(), 1_500);
}

#[test]
#[should_panic]
fn test_invalid_asset_type() {
    // Try to deploy a token with an invalid asset type
    let _ = deploy("Bad Token", "BAD", "banana", None, 0).unwrap();
}

#[test]
fn test_read_admin_on_uninitialized_contract_fails_with_typed_error() {
    let mut h = setup();

    // Simulate an uninitialized contract by clearing the admin directly.
    h.token.admin = None;

    let res = h.set_external_uri("ipfs://Qm");
    assert_eq!(res, refused(RwaError::NotInitialized));
}

#[test]
fn test_version_returns_nonempty() {
    let h = setup();
    let v = h.token.version();
    assert!(!v.is_empty());
}

#[test]
fn test_batch_transfer_two_recipients_success() {
    let mut h = setup();
    let alice = h.generate();
    let bob = h.generate();
    let carol = h.generate();
    h.approve_kyc(alice);
    h.approve_kyc(bob);
    h.approve_kyc(carol);
    h.mint(alice, 1_000);

    let recipients = vec![
        RecipientEntry { to: bob, amount: 300 },
        RecipientEntry { to: carol, amount: 200 },
    ];
    h.batch_transfer(alice, recipients).unwrap();

    assert_eq!(h.token.balance(alice), 500);
    assert_eq!(h.token.balance(bob), 300);
    assert_eq!(h.token.balance(carol), 200);
}

#[test]
fn test_batch_transfer_state_unchanged_on_kyc_failure() {
    let mut h = setup();
    let alice = h.generate();
    let bob = h.generate();
    let carol = h.generate(); // no KYC
    h.approve_kyc(alice);
    h.approve_kyc(bob);
    h.mint(alice, 1_000);

    let recipients = vec![
        RecipientEntry { to: bob, amount: 300 },
        RecipientEntry { to: carol, amount: 200 }, // fails here
    ];
    assert!(h.batch_transfer(alice, recipients).is_err());

    // No state changes: balances untouched
    assert_eq!(h.token.balance(alice), 1_000);
    assert_eq!(h.token.balance(bob), 0);
    assert_eq!(h.token.balance(carol), 0);
}

#[test]
fn test_batch_transfer_state_unchanged_on_insufficient_balance() {
    let mut h = setup();
    let alice = h.generate();
    let bob = h.generate();
    let carol = h.generate();
    h.approve_kyc(alice);
    h.approve_kyc(bob);
    h.approve_kyc(carol);
    h.mint(alice, 400); // only 400, but batch asks for 300 + 200 = 500

    let recipients = vec![
        RecipientEntry { to: bob, amount: 300 },
        RecipientEntry { to: carol, amount: 200 },
    ];
    assert!(h.batch_transfer(alice, recipients).is_err());

    // State must be fully unchanged
    assert_eq!(h.token.balance(alice), 400);
    assert_eq!(h.token.balance(bob), 0);
    assert_eq!(h.token.balance(carol), 0);
}

#[test]
fn test_batch_transfer_state_unchanged_on_frozen_recipient() {
    let mut h = setup();
    let alice = h.generate();
    let bob = h.generate();
    let carol = h.generate();
    h.approve_kyc(alice);
    h.approve_kyc(bob);
    h.approve_kyc(carol);
    h.mint(alice, 1_000);
    h.freeze(carol);

    let recipients = vec![
        RecipientEntry { to: bob, amount: 300 },
        RecipientEntry { to: carol, amount: 200 }, // frozen → validation fails
    ];
    assert!(h.batch_transfer(alice, recipients).is_err());

    assert_eq!(h.token.balance(alice), 1_000);
    assert_eq!(h.token.balance(bob), 0);
    assert_eq!(h.token.balance(carol), 0);
}

#[test]
fn test_batch_transfer_frozen_sender_rejected() {
    let mut h = setup();
    let alice = h.generate();
    let bob = h.generate();
    h.approve_kyc(alice);
    h.approve_kyc(bob);
    h.mint(alice, 1_000);
    h.freeze(alice);

    let recipients = vec![
        RecipientEntry { to: bob, amount: 100 },
    ];
    assert!(h.batch_transfer(alice, recipients).is_err());
    assert_eq!(h.token.balance(alice), 1_000);
}

#[test]
fn test_batch_transfer_exceeds_max_recipients() {
    let mut h = setup();
    let alice = h.generate();
    h.approve_kyc(alice);
    h.mint(alice, 10_000);

    // Build 11 recipients — must be rejected before any transfer
    let mut recipients = Vec::new();
    for _ in 0..11 {
        let addr = h.generate();
        h.approve_kyc(addr);
        recipients.push(RecipientEntry { to: addr, amount: 1 });
    }
    assert!(h.batch_transfer(alice, recipients).is_err());
    assert_eq!(h.token.balance(alice), 10_000);
}

#[test]
fn test_batch_transfer_empty_recipients_rejected() {
    let mut h = setup();
    let alice = h.generate();
    h.approve_kyc(alice);
    h.mint(alice, 10_000);

    let recipients = Vec::new();
    let res = h.batch_transfer(alice, recipients);
    assert_eq!(res, refused(RwaError::EmptyBatch));
    assert_eq!(h.token.balance(alice), 10_000);
}

#[test]
fn test_batch_transfer_zero_amount_entry_rejected() {
    let mut h = setup();
    let alice = h.generate();
    let bob = h.generate();
    h.approve_kyc(alice);
    h.approve_kyc(bob);
    h.mint(alice, 1_000);

    let recipients = vec![
        RecipientEntry { to: bob, amount: 0 }, // invalid
    ];
    assert!(h.batch_transfer(alice, recipients).is_err());
    assert_eq!(h.token.balance(alice), 1_000);
    assert_eq!(h.token.balance(bob), 0);
}

#[test]
fn test_batch_transfer_sender_unregistered_when_balance_drained() {
    let mut h = setup();
    let alice = h.generate();
    let bob = h.generate();
    h.approve_kyc(alice);
    h.approve_kyc(bob);
    h.mint(alice, 500);
    assert_eq!(h.compliance.holder_count(), 1);

    let recipients = vec![
        RecipientEntry { to: bob, amount: 500 }, // drains alice
    ];
    h.batch_transfer(alice, recipients).unwrap();

    assert_eq!(h.token.balance(alice), 0);
    assert_eq!(h.token.balance(bob), 500);
    // alice deregistered, bob registered → still 1 holder
    assert_eq!(h.compliance.holder_count(), 1);
}

#[test]
fn test_batch_transfer_holder_count_correct_after_batch() {
    let mut h = setup();
    let alice = h.generate();
    let bob = h.generate();
    let carol = h.generate();
    h.approve_kyc(alice);
    h.approve_kyc(bob);
    h.approve_kyc(carol);
    h.mint(alice, 1_000);
    assert_eq!(h.compliance.holder_count(), 1);

    let recipients = vec![
        RecipientEntry { to: bob, amount: 400 },
        RecipientEntry { to: carol, amount: 300 },
    ];
    h.batch_transfer(alice, recipients).unwrap();

    // alice (300 remaining), bob (400), carol (300) → 3 holders
    assert_eq!(h.compliance.holder_count(), 3);
    assert_eq!(h.token.balance(alice), 300);
}

#[test]
fn test_batch_transfer_rejects_cumulative_holder_limit_without_state_change() {
    let mut h = setup();
    let alice = h.generate();
    let bob = h.generate();
    let carol = h.generate();
    h.approve_kyc(alice);
    h.approve_kyc(bob);
    h.approve_kyc(carol);
    h.mint(alice, 1_000);
    h.set_max_holders(2);

    // Each leg independently sees one holder and would pass a cap of two.
    // The complete plan creates two new holders and must fail before mutation.
    let recipients = vec![
        RecipientEntry { to: bob, amount: 100 },
        RecipientEntry { to: carol, amount: 100 },
    ];
    assert!(h.batch_transfer(alice, recipients).is_err());

    assert_eq!(h.token.balance(alice), 1_000);
    assert_eq!(h.token.balance(bob), 0);
    assert_eq!(h.token.balance(carol), 0);
    assert_eq!(h.compliance.holder_count(), 1);
}

#[test]
fn test_batch_transfer_counts_duplicate_recipient_once_for_holder_limit() {
    let mut h = setup();
    let alice = h.generate();
    let bob = h.generate();
    h.approve_kyc(alice);
    h.approve_kyc(bob);
    h.mint(alice, 1_000);
    h.set_max_holders(2);

    let recipients = vec![
        RecipientEntry { to: bob, amount: 100 },
        RecipientEntry { to: bob, amount: 150 },
    ];
    h.batch_transfer(alice, recipients).unwrap();

    assert_eq!(h.token.balance(alice), 750);
    assert_eq!(h.token.balance(bob), 250);
    assert_eq!(h.compliance.holder_count(), 2);
}

#[test]
fn test_batch_transfer_reuses_drained_sender_holder_slot() {
    let mut h = setup();
    let alice = h.generate();
    let bob = h.generate();
    let carol = h.generate();
    h.approve_kyc(alice);
    h.approve_kyc(bob);
    h.approve_kyc(carol);
    h.mint(alice, 1_000);
    h.set_max_holders(2);

    let recipients = vec![
        RecipientEntry { to: bob, amount: 500 },
        RecipientEntry { to: carol, amount: 500 },
    ];
    h.batch_transfer(alice, recipients).unwrap();

    assert_eq!(h.token.balance(alice), 0);
    assert_eq!(h.token.balance(bob), 500);
    assert_eq!(h.token.balance(carol), 500);
    assert_eq!(h.compliance.holder_count(), 2);
}

#[test]
fn test_batch_transfer_amount_overflow_leaves_state_unchanged() {
    let mut h = setup();
    let alice = h.generate();
    let bob = h.generate();
    let carol = h.generate();
    h.approve_kyc(alice);
    h.approve_kyc(bob);
    h.approve_kyc(carol);
    h.mint(alice, i128::MAX);

    let recipients = vec![
        RecipientEntry { to: bob, amount: i128::MAX },
        RecipientEntry { to: carol, amount: 1 },
    ];
    assert!(h.batch_transfer(alice, recipients).is_err());

    assert_eq!(h.token.balance(alice), i128::MAX);
    assert_eq!(h.token.balance(bob), 0);
    assert_eq!(h.token.balance(carol), 0);
    assert_eq!(h.compliance.holder_count(), 1);
}

#[test]
fn test_batch_transfer_compliance_paused_state_unchanged() {
    let mut h = setup();
    let alice = h.generate();
    let bob = h.generate();
    h.approve_kyc(alice);
    h.approve_kyc(bob);
    h.mint(alice, 1_000);
    h.compliance.pause();

    let recipients = vec![
        RecipientEntry { to: bob, amount: 100 },
    ];
    assert!(h.batch_transfer(alice, recipients).is_err());
    assert_eq!(h.token.balance(alice), 1_000);
    assert_eq!(h.token.balance(bob), 0);
}

#[test]
fn test_batch_transfer_max_amount_rule_per_entry() {
    let mut h = setup();
    let alice = h.generate();
    let bob = h.generate();
    h.approve_kyc(alice);
    h.approve_kyc(bob);
    h.mint(alice, 1_000);

    h.compliance.set_rules(ComplianceRulesMirror {
        max_transfer_amount: 50,
        min_holding_period: 0,
        max_holders: 0,
        require_same_jurisdiction: false,
        paused: false,
        allowlist_mode: false,
        max_holding_period: 0,
    });

    // Single entry of 51 exceeds per-transfer cap
    let recipients_over = vec![
        RecipientEntry { to: bob, amount: 51 },
    ];
    assert!(h.batch_transfer(alice, recipients_over).is_err());

    // Single entry within cap succeeds
    let recipients_ok = vec![
        RecipientEntry { to: bob, amount: 50 },
    ];
    h.batch_transfer(alice, recipients_ok).unwrap();
    assert_eq!(h.token.balance(bob), 50);
}

#[test]
fn test_batch_transfer_from_success() {
    let mut h = setup();
    let alice = h.generate();
    let bob = h.generate();
    let carol = h.generate();
    let spender = h.generate();
    h.approve_kyc(alice);
    h.approve_kyc(bob);
    h.approve_kyc(carol);
    h.mint(alice, 1_000);

    let expiration = h.sequence + 1_000;
    h.approve(alice, spender, 600, expiration).unwrap();

    let recipients = vec![
        RecipientEntry { to: bob, amount: 300 },
        RecipientEntry { to: carol, amount: 200 },
    ];
    h.batch_transfer_from(spender, alice, recipients).unwrap();

    assert_eq!(h.token.balance(alice), 500);
    assert_eq!(h.token.balance(bob), 300);
    assert_eq!(h.token.balance(carol), 200);
    // Allowance reduced by total = 500; 600 - 500 = 100 remaining
    assert_eq!(h.allowance(alice, spender), 100);
}

#[test]
fn test_batch_transfer_from_insufficient_allowance() {
    let mut h = setup();
    let alice = h.generate();
    let bob = h.generate();
    let spender = h.generate();
    h.approve_kyc(alice);
    h.approve_kyc(bob);
    h.mint(alice, 1_000);

    let expiration = h.sequence + 1_000;
    h.approve(alice, spender, 100, expiration).unwrap(); // only 100

    let recipients = vec![
        RecipientEntry { to: bob, amount: 200 }, // needs 200
    ];
    assert!(h.batch_transfer_from(spender, alice, recipients).is_err());

    assert_eq!(h.token.balance(alice), 1_000);
    assert_eq!(h.token.balance(bob), 0);
    assert_eq!(h.allowance(alice, spender), 100); // unchanged
}

#[test]
fn test_batch_transfer_from_expired_allowance() {
    let mut h = setup();
    let alice = h.generate();
    let bob = h.generate();
    let spender = h.generate();
    h.approve_kyc(alice);
    h.approve_kyc(bob);
    h.mint(alice, 1_000);

    let expiration = h.sequence + 10;
    h.approve(alice, spender, 500, expiration).unwrap();

    h.sequence = expiration + 1;

    let recipients = vec![
        RecipientEntry { to: bob, amount: 100 },
    ];
    assert!(h.batch_transfer_from(spender, alice, recipients).is_err());
    assert_eq!(h.token.balance(alice), 1_000);
    assert_eq!(h.token.balance(bob), 0);
}

#[test]
fn test_batch_transfer_from_state_unchanged_on_kyc_failure() {
    let mut h = setup();
    let alice = h.generate();
    let bob = h.generate();
    let carol = h.generate(); // no KYC
    let spender = h.generate();
    h.approve_kyc(alice);
    h.approve_kyc(bob);
    h.mint(alice, 1_000);

    let expiration = h.sequence + 1_000;
    h.approve(alice, spender, 600, expiration).unwrap();

    let recipients = vec![
        RecipientEntry { to: bob, amount: 300 },
        RecipientEntry { to: carol, amount: 200 }, // KYC fails
    ];
    assert!(h.batch_transfer_from(spender, alice, recipients).is_err());

    assert_eq!(h.token.balance(alice), 1_000);
    assert_eq!(h.token.balance(bob), 0);
    // Allowance must also be unchanged (consumed only after validation pass)
    assert_eq!(h.allowance(alice, spender), 600);
}

#[test]
fn test_batch_transfer_from_allowance_consumed_atomically() {
    // Ensure allowance is consumed for the full batch total, not incrementally
    let mut h = setup();
    let alice = h.generate();
    let bob = h.generate();
    let carol = h.generate();
    let spender = h.generate();
    h.approve_kyc(alice);
    h.approve_kyc(bob);
    h.approve_kyc(carol);
    h.mint(alice, 1_000);

    let expiration = h.sequence + 1_000;
    h.approve(alice, spender, 500, expiration).unwrap();

    let recipients = vec![
        RecipientEntry { to: bob, amount: 250 },
        RecipientEntry { to: carol, amount: 250 },
    ];
    h.batch_transfer_from(spender, alice, recipients).unwrap();

    assert_eq!(h.allowance(alice, spender), 0);
    assert_eq!(h.token.balance(alice), 500);
    assert_eq!(h.token.balance(bob), 250);
    assert_eq!(h.token.balance(carol), 250);
}

#[test]
fn test_batch_transfer_from_holder_limit_failure_preserves_allowance() {
    let mut h = setup();
    let alice = h.generate();
    let bob = h.generate();
    let carol = h.generate();
    let spender = h.generate();
    h.approve_kyc(alice);
    h.approve_kyc(bob);
    h.approve_kyc(carol);
    h.mint(alice, 1_000);
    h.set_max_holders(2);

    let expiration = h.sequence + 1_000;
    h.approve(alice, spender, 500, expiration).unwrap();
    let recipients = vec![
        RecipientEntry { to: bob, amount: 100 },
        RecipientEntry { to: carol, amount: 100 },
    ];

    assert!(h.batch_transfer_from(spender, alice, recipients).is_err());
    assert_eq!(h.allowance(alice, spender), 500);
    assert_eq!(h.token.balance(alice), 1_000);
    assert_eq!(h.token.balance(bob), 0);
    assert_eq!(h.token.balance(carol), 0);
    assert_eq!(h.compliance.holder_count(), 1);
}

#[test]
fn test_batch_transfer_from_exceeds_max_recipients() {
    let mut h = setup();
    let alice = h.generate();
    let spender = h.generate();
    h.approve_kyc(alice);
    h.mint(alice, 10_000);

    let expiration = h.sequence + 1_000;
    h.approve(alice, spender, 10_000, expiration).unwrap();

    let mut recipients = Vec::new();
    for _ in 0..11 {
        let addr = h.generate();
        h.approve_kyc(addr);
        recipients.push(RecipientEntry { to: addr, amount: 1 });
    }
    assert!(h.batch_transfer_from(spender, alice, recipients).is_err());
    assert_eq!(h.token.balance(alice), 10_000);
}

#[test]
fn test_contract_version_info_initialized_at_deploy() {
    let h = setup();
    let (ver, count, last_ts) = h.token.contract_version_info();
    // Version is set to Cargo.toml version at deploy; migration count starts at 0.
    assert!(!ver.is_empty());
    assert_eq!(count, 0);
    assert_eq!(last_ts, 0);
}

#[test]
fn test_migrate_records_version_bump() {
    let mut h = setup();
    let nonce = h.next_nonce();
    let new_ver = "0.2.0";
    let desc = "first upgrade";
    h.migrate(new_ver, desc, nonce).unwrap();

    let (ver, count, _ts) = h.token.contract_version_info();
    assert_eq!(ver, new_ver);
    assert_eq!(count, 1);
}

#[test]
fn test_migrate_increments_count_on_each_call() {
    let mut h = setup();
    h.migrate("0.2.0", "add recovery", 0).unwrap();
    h.migrate("0.3.0", "add events", 1).unwrap();

    let (_ver, count, _ts) = h.token.contract_version_info();
    assert_eq!(count, 2);
}

#[test]
fn test_get_migration_record_returns_correct_entry() {
    let mut h = setup();
    let v1 = "0.2.0";
    let d1 = "first upgrade";
    h.migrate(v1, d1, 0).unwrap();

    let v2 = "0.3.0";
    let d2 = "second upgrade";
    h.migrate(v2, d2, 1).unwrap();

    let rec0 = h.token.get_migration_record(0).unwrap();
    assert_eq!(rec0.to_version, v1);
    assert_eq!(rec0.description, d1);

    let rec1 = h.token.get_migration_record(1).unwrap();
    assert_eq!(rec1.to_version, v2);
    assert_eq!(rec1.description, d2);
}

#[test]
fn test_migrate_last_ts_reflects_ledger_timestamp() {
    let mut h = setup();
    h.timestamp = 1_700_000_000;
    h.migrate("0.2.0", "timed upgrade", 0).unwrap();
    let (_ver, _count, last_ts) = h.token.contract_version_info();
    assert_eq!(last_ts, 1_700_000_000);
}

#[test]
fn test_get_token_export_basic_fields() {
    let h = setup();
    let export = h.token.get_token_export();

    assert_eq!(export.name, "Veritoken RWA");
    assert_eq!(export.symbol, "VTRWA");
    assert_eq!(export.decimals, 7u32);
    assert_eq!(export.asset_type, "property");
    assert_eq!(export.total_supply, 0i128);
    assert_eq!(export.max_supply, 0i128);
    assert!(!export.contract_version.is_empty());
}

#[test]
fn test_get_token_export_linked_addresses() {
    let h = setup();
    let export = h.token.get_token_export();

    assert_eq!(export.kyc_registry, h.token.kyc_registry());
    assert_eq!(export.compliance_engine, h.token.compliance_engine());
}

#[test]
fn test_get_token_export_compliance_fields_empty_by_default() {
    let h = setup();
    let export = h.token.get_token_export();

    assert!(export.legal_entity.is_none());
    assert!(export.governing_law.is_none());
    assert!(export.isin.is_none());
    assert!(export.prospectus_hash.is_none());
    assert!(export.external_uri.is_none());
}

#[test]
fn test_get_token_export_reflects_set_compliance_metadata() {
    let mut h = setup();
    let key_entity = META_LEGAL_ENTITY;
    let key_isin = META_ISIN;
    h.set_compliance_metadata(h.admin, key_entity, "Acme Corp", h.next_nonce())
        .unwrap();
    h.set_compliance_metadata(h.admin, key_isin, "US0231351067", h.next_nonce())
        .unwrap();

    let export = h.token.get_token_export();
    assert_eq!(export.legal_entity, Some("Acme Corp".to_string()));
    assert_eq!(export.isin, Some("US0231351067".to_string()));
    assert!(export.governing_law.is_none());
    assert!(export.prospectus_hash.is_none());
}

#[test]
fn test_get_token_export_reflects_total_supply_after_mint() {
    let mut h = setup();
    let user = h.generate();
    h.approve_kyc(user);
    h.mint(user, 5_000);

    let export = h.token.get_token_export();
    assert_eq!(export.total_supply, 5_000i128);
}

#[test]
fn test_set_and_get_external_uri() {
    let mut h = setup();
    assert_eq!(h.token.get_external_uri(), "");

    let uri = "ipfs://QmTestHash";
    h.set_external_uri(uri).unwrap();

    assert_eq!(h.token.get_external_uri(), uri);
    let export = h.token.get_token_export();
    assert_eq!(export.external_uri, Some(uri.to_string()));
}

#[test]
fn test_set_external_uri_empty_string_clears_value() {
    let mut h = setup();
    h.set_external_uri("https://example.com/meta").unwrap();
    h.set_external_uri("").unwrap();

    assert_eq!(h.token.get_external_uri(), "");
    let export = h.token.get_token_export();
    assert!(export.external_uri.is_none());
}

#[test]
fn test_get_token_export_max_supply_set_at_constructor() {
    let token = deploy("Cap Token", "CAP", "invoice", None, 1_000_000).unwrap();
    let export = token.get_token_export();
    assert_eq!(export.max_supply, 1_000_000i128);
}

#[test]
fn test_check_kyc_status_active_for_approved_holder() {
    let mut h = setup();
    let user = h.generate();
    h.approve_kyc(user);

    let snap = h.check_kyc_status(user).unwrap();
    assert!(snap.is_active);
    assert_eq!(snap.tier, 1u32);
    assert_eq!(snap.jurisdiction, "US");
    assert_eq!(snap.expiry, 0u64); // no expiry set
}

#[test]
fn test_check_kyc_status_inactive_for_revoked() {
    let mut h = setup();
    let user = h.generate();
    h.approve_kyc(user);
    h.kyc.revoke(user);

    let snap = h.check_kyc_status(user).unwrap();
    assert!(!snap.is_active);
}

#[test]
fn test_check_kyc_status_inactive_for_expired_approval() {
    let mut h = setup();
    let user = h.generate();

    // Approve with expiry in the past
    h.timestamp = 1_000;
    h.kyc.approve(user, 1, 500, "US"); // expiry = 500 < current 1000

    let snap = h.check_kyc_status(user).unwrap();
    assert!(!snap.is_active);
    assert_eq!(snap.expiry, 500u64);
}

#[test]
fn test_check_kyc_status_active_at_expiry_boundary() {
    let mut h = setup();
    let user = h.generate();

    h.timestamp = 1_000;
    // expiry == now → still active (expiry >= now)
    h.kyc.approve(user, 1, 1_000, "US");

    let snap = h.check_kyc_status(user).unwrap();
    assert!(snap.is_active);
}

#[test]
fn test_check_kyc_status_inactive_one_second_past_expiry() {
    let mut h = setup();
    let user = h.generate();

    h.timestamp = 999;
    h.kyc.approve(user, 1, 1_000, "US");

    h.timestamp = 1_001;
    let snap = h.check_kyc_status(user).unwrap();
    assert!(!snap.is_active);
}

#[test]
fn test_check_kyc_status_checked_at_reflects_current_timestamp() {
    let mut h = setup();
    let user = h.generate();
    h.approve_kyc(user);

    h.timestamp = 9_999_000;
    let snap = h.check_kyc_status(user).unwrap();
    assert_eq!(snap.checked_at, 9_999_000u64);
}

#[test]
fn test_sync_kyc_status_returns_true_for_active() {
    let mut h = setup();
    let user = h.generate();
    h.approve_kyc(user);

    let is_active = h.sync_kyc_status(user).unwrap();
    assert!(is_active);
}

#[test]
fn test_sync_kyc_status_returns_false_after_revocation() {
    let mut h = setup();
    let user = h.generate();
    h.approve_kyc(user);
    h.kyc.revoke(user);

    let is_active = h.sync_kyc_status(user).unwrap();
    assert!(!is_active);
}

#[test]
fn test_sync_kyc_status_returns_false_for_expired_approval() {
    let mut h = setup();
    let user = h.generate();

    h.timestamp = 500;
    h.kyc.approve(user, 1, 600, "US"); // expires at 600

    h.timestamp = 700; // past expiry
    let is_active = h.sync_kyc_status(user).unwrap();
    assert!(!is_active);
}

#[test]
fn test_transfer_blocked_after_revocation() {
    // Verifies that revocation is immediately effective on the next transfer attempt.
    let mut h = setup();
    let alice = h.generate();
    let bob = h.generate();
    h.approve_kyc(alice);
    h.approve_kyc(bob);
    h.mint(alice, 1_000);

    // Transfer works before revocation
    h.transfer(alice, bob, 100).unwrap();
    assert_eq!(h.token.balance(bob), 100);

    // Revoke alice's KYC
    h.kyc.revoke(alice);

    // Next transfer must fail — KYC check catches the revocation
    assert!(h.transfer(alice, bob, 100).is_err());
}

#[test]
fn test_transfer_blocked_after_expiry() {
    let mut h = setup();
    let alice = h.generate();
    let bob = h.generate();

    h.timestamp = 1_000;
    h.kyc.approve(alice, 1, 2_000, "US"); // expires at t=2000
    h.approve_kyc(bob);

    h.mint(alice, 1_000);

    // Transfer works before expiry
    h.transfer(alice, bob, 100).unwrap();

    // Jump past alice's expiry
    h.timestamp = 2_001;

    // Transfer now blocked — alice's KYC has expired
    assert!(h.transfer(alice, bob, 100).is_err());
}

#[test]
fn test_mint_blocked_after_recipient_kyc_expires() {
    let mut h = setup();
    let user = h.generate();

    h.timestamp = 1_000;
    h.kyc.approve(user, 1, 1_500, "US"); // expires at t=1500

    h.mint(user, 500); // works before expiry

    h.timestamp = 1_600; // past expiry

    assert!(h.mint_as(h.admin, user, 500).is_err());
}

#[test]
fn test_check_kyc_status_tier_reflects_update() {
    let mut h = setup();
    let user = h.generate();

    h.kyc.approve(user, 1, 0, "US");
    let snap1 = h.check_kyc_status(user).unwrap();
    assert_eq!(snap1.tier, 1u32);

    // Upgrade tier to 2
    h.kyc.update_tier(user, 2);
    let snap2 = h.check_kyc_status(user).unwrap();
    assert_eq!(snap2.tier, 2u32);
    assert!(snap2.is_active);
}

#[test]
fn test_schema_version_initialized_to_one() {
    let h = setup();
    assert_eq!(h.token.schema_version(), 1u32);
}

#[test]
fn test_migrate_schema_success_v1_to_v2() {
    let mut h = setup();
    let nonce = h.next_nonce();
    h.migrate_schema(2, "v1 -> v2: add schema field", nonce).unwrap();
    assert_eq!(h.token.schema_version(), 2u32);
}

#[test]
fn test_migrate_schema_record_persisted() {
    let mut h = setup();
    let nonce = h.next_nonce();
    let desc = "v1 to v2";
    h.migrate_schema(2, desc, nonce).unwrap();

    let rec = h.token.get_schema_migration_record(0).unwrap();
    assert_eq!(rec.from_version, 1u32);
    assert_eq!(rec.to_version, 2u32);
    assert_eq!(rec.description, desc);
}

#[test]
fn test_migrate_schema_already_at_version_rejected() {
    let mut h = setup();
    let nonce = h.next_nonce();
    // schema_version is 1; migrating to 1 must fail with MigrationVersionConflict.
    let res = h.migrate_schema(1, "dup", nonce);
    assert_eq!(res, refused(RwaError::MigrationVersionConflict));
}

#[test]
fn test_migrate_schema_version_skip_rejected() {
    let mut h = setup();
    let nonce = h.next_nonce();
    let res = h.migrate_schema(3, "skip", nonce);
    assert_eq!(res, refused(RwaError::MigrationVersionNotSequential));
}

#[test]
fn test_migrate_schema_sequential_steps_succeed() {
    let mut h = setup();

    h.migrate_schema(2, "step 1", h.next_nonce()).unwrap();
    h.migrate_schema(3, "step 2", h.next_nonce()).unwrap();

    assert_eq!(h.token.schema_version(), 3u32);

    let rec0 = h.token.get_schema_migration_record(0).unwrap();
    let rec1 = h.token.get_schema_migration_record(1).unwrap();
    assert_eq!(rec0.from_version, 1u32);
    assert_eq!(rec0.to_version, 2u32);
    assert_eq!(rec1.from_version, 2u32);
    assert_eq!(rec1.to_version, 3u32);
}

#[test]
fn test_migrate_semver_idempotency_rejected() {
    let mut h = setup();
    // Migrate to a new semver first.
    h.migrate("0.2.0", "first upgrade", h.next_nonce()).unwrap();
    // Submitting the same semver again must be rejected.
    let res = h.migrate("0.2.0", "dup", h.next_nonce());
    assert_eq!(res, refused(RwaError::MigrationVersionConflict));
}

#[test]
fn test_migrate_schema_legacy_bootstrap() {
    let mut h = setup();
    h.token = deploy("Veritoken RWA", "VTRWA", "property", None, 0).unwrap();

    // Simulate a legacy deployment, which has no schema version.
    h.token.schema_version = 0;

    assert_eq!(h.token.schema_version(), 0u32);

    // Bootstrap migration to v1 must succeed.
    h.migrate_schema(1, "bootstrap", h.next_nonce()).unwrap();
    assert_eq!(h.token.schema_version(), 1u32);
}

#[test]
fn test_migrate_schema_state_continuity() {
    // Token balances must be intact after a schema migration.
    let mut h = setup();
    let user = h.generate();
    h.approve_kyc(user);
    h.mint(user, 1_000);

    h.migrate_schema(2, "v1 -> v2", h.next_nonce()).unwrap();

    assert_eq!(h.token.balance(user), 1_000);
    assert_eq!(h.token.schema_version(), 2u32);
}

// A failed batch leaves token balances, allowances, and holder state completely
// unchanged.

/// Frozen recipient in the *middle* of a 3-entry batch.
/// The first entry (bob) would succeed on its own; the second (eve, frozen)
/// fails during the validation pass; the third (carol) never executes.
/// All balances and holder-count must be untouched.
#[test]
fn test_batch_transfer_frozen_recipient_in_middle_leaves_no_partial_state() {
    let mut h = setup();
    let alice = h.generate();
    let bob = h.generate();
    let eve = h.generate(); // frozen — sits in the middle
    let carol = h.generate();
    h.approve_kyc(alice);
    h.approve_kyc(bob);
    h.approve_kyc(eve);
    h.approve_kyc(carol);
    h.mint(alice, 1_000);
    h.freeze(eve);

    let recipients = vec![
        RecipientEntry { to: bob, amount: 200 },
        RecipientEntry { to: eve, amount: 100 }, // frozen → validation fails
        RecipientEntry { to: carol, amount: 300 },
    ];
    assert!(h.batch_transfer(alice, recipients).is_err());

    // Invariant: no balance or holder state must have changed.
    assert_eq!(h.token.balance(alice), 1_000);
    assert_eq!(h.token.balance(bob), 0);
    assert_eq!(h.token.balance(eve), 0);
    assert_eq!(h.token.balance(carol), 0);
    assert_eq!(h.token.total_supply(), 1_000);
    assert_eq!(h.compliance.holder_count(), 1);
}

/// Expired-KYC recipient in the middle of a 3-entry batch.
/// KYC is approved with a near-future expiry, then the ledger is advanced
/// past the expiry. The batch must be rejected entirely.
#[test]
fn test_batch_transfer_expired_kyc_recipient_in_middle_leaves_no_partial_state() {
    let mut h = setup();
    let alice = h.generate();
    let bob = h.generate();
    let eve = h.generate(); // KYC will expire
    let carol = h.generate();
    h.approve_kyc(alice);
    h.approve_kyc(bob);
    h.approve_kyc(carol);

    // Give eve a short-lived KYC that expires at t=1_000.
    h.timestamp = 500;
    h.kyc.approve(eve, 1, 1_000, "US"); // expires at t=1000

    h.mint(alice, 1_000);

    // Advance time past eve's expiry.
    h.timestamp = 1_500;

    let recipients = vec![
        RecipientEntry { to: bob, amount: 200 },
        RecipientEntry { to: eve, amount: 100 }, // expired KYC → fails
        RecipientEntry { to: carol, amount: 300 },
    ];
    assert!(h.batch_transfer(alice, recipients).is_err());

    assert_eq!(h.token.balance(alice), 1_000);
    assert_eq!(h.token.balance(bob), 0);
    assert_eq!(h.token.balance(eve), 0);
    assert_eq!(h.token.balance(carol), 0);
    assert_eq!(h.token.total_supply(), 1_000);
    assert_eq!(h.compliance.holder_count(), 1);
}

/// Integration invariant: total supply, per-account balances, and holder count
/// are all consistent after a batch that fails due to insufficient balance.
#[test]
fn test_batch_transfer_insufficient_balance_invariants_total_supply_and_holder_count() {
    let mut h = setup();
    let alice = h.generate();
    let bob = h.generate();
    let carol = h.generate();
    let dave = h.generate();
    h.approve_kyc(alice);
    h.approve_kyc(bob);
    h.approve_kyc(carol);
    h.approve_kyc(dave);

    h.mint(alice, 500); // deliberately less than the 600 total below

    let supply_before = h.token.total_supply();
    let holders_before = h.compliance.holder_count();

    let recipients = vec![
        RecipientEntry { to: bob, amount: 200 },
        RecipientEntry { to: carol, amount: 200 },
        RecipientEntry { to: dave, amount: 200 }, // total 600 > 500
    ];
    assert!(h.batch_transfer(alice, recipients).is_err());

    // All three invariants must hold after the failed batch.
    assert_eq!(h.token.total_supply(), supply_before);
    assert_eq!(h.token.balance(alice), 500);
    assert_eq!(h.token.balance(bob), 0);
    assert_eq!(h.token.balance(carol), 0);
    assert_eq!(h.token.balance(dave), 0);
    assert_eq!(h.compliance.holder_count(), holders_before);
}

/// `batch_transfer_from`: a mid-batch KYC failure must leave the allowance,
/// all balances, and holder count unchanged.
#[test]
fn test_batch_transfer_from_mid_batch_kyc_failure_preserves_all_state() {
    let mut h = setup();
    let alice = h.generate();
    let bob = h.generate();
    let eve = h.generate(); // no KYC — sits in the middle
    let carol = h.generate();
    let spender = h.generate();
    h.approve_kyc(alice);
    h.approve_kyc(bob);
    h.approve_kyc(carol);
    h.mint(alice, 1_000);

    let expiration = h.sequence + 1_000;
    h.approve(alice, spender, 700, expiration).unwrap();

    let recipients = vec![
        RecipientEntry { to: bob, amount: 200 },
        RecipientEntry { to: eve, amount: 100 }, // no KYC → validation fails
        RecipientEntry { to: carol, amount: 300 },
    ];
    assert!(h.batch_transfer_from(spender, alice, recipients).is_err());

    // All state must be untouched.
    assert_eq!(h.token.balance(alice), 1_000);
    assert_eq!(h.token.balance(bob), 0);
    assert_eq!(h.token.balance(eve), 0);
    assert_eq!(h.token.balance(carol), 0);
    assert_eq!(h.allowance(alice, spender), 700); // allowance not consumed
    assert_eq!(h.token.total_supply(), 1_000);
    assert_eq!(h.compliance.holder_count(), 1);
}

/// `batch_transfer_from`: a mid-batch frozen-recipient failure must leave the
/// allowance unchanged, matching the same invariant as `batch_transfer`.
#[test]
fn test_batch_transfer_from_mid_batch_frozen_recipient_preserves_allowance() {
    let mut h = setup();
    let alice = h.generate();
    let bob = h.generate();
    let eve = h.generate(); // frozen — sits in the middle
    let carol = h.generate();
    let spender = h.generate();
    h.approve_kyc(alice);
    h.approve_kyc(bob);
    h.approve_kyc(eve);
    h.approve_kyc(carol);
    h.mint(alice, 1_000);
    h.freeze(eve);

    let expiration = h.sequence + 1_000;
    h.approve(alice, spender, 700, expiration).unwrap();

    let recipients = vec![
        RecipientEntry { to: bob, amount: 200 },
        RecipientEntry { to: eve, amount: 100 }, // frozen → validation fails
        RecipientEntry { to: carol, amount: 300 },
    ];
    assert!(h.batch_transfer_from(spender, alice, recipients).is_err());

    assert_eq!(h.token.balance(alice), 1_000);
    assert_eq!(h.token.balance(bob), 0);
    assert_eq!(h.token.balance(eve), 0);
    assert_eq!(h.token.balance(carol), 0);
    assert_eq!(h.allowance(alice, spender), 700);
    assert_eq!(h.token.total_supply(), 1_000);
    assert_eq!(h.compliance.holder_count(), 1);
}

/// Single transfer and batch transfer must enforce the same freeze rule for
/// the *sender*: a frozen sender is rejected by both paths identically.
#[test]
fn test_single_and_batch_transfer_enforce_same_freeze_rule_for_sender() {
    let mut h = setup();
    let alice = h.generate();
    let bob = h.generate();
    h.approve_kyc(alice);
    h.approve_kyc(bob);
    h.mint(alice, 1_000);
    h.freeze(alice);

    // Single transfer: frozen sender rejected.
    assert!(h.transfer(alice, bob, 100).is_err());

    // Batch transfer: same frozen sender rejected.
    let recipients = vec![
        RecipientEntry { to: bob, amount: 100 },
    ];
    assert!(h.batch_transfer(alice, recipients).is_err());

    // Both balances and holder count unchanged.
    assert_eq!(h.token.balance(alice), 1_000);
    assert_eq!(h.token.balance(bob), 0);
    assert_eq!(h.compliance.holder_count(), 1);
}

/// Single transfer and batch transfer must enforce the same KYC rule for
/// the *sender*: a revoked sender is rejected by both paths identically.
#[test]
fn test_single_and_batch_transfer_enforce_same_kyc_rule_for_sender() {
    let mut h = setup();
    let alice = h.generate();
    let bob = h.generate();
    h.approve_kyc(alice);
    h.approve_kyc(bob);
    h.mint(alice, 1_000);

    // Revoke alice's KYC.
    h.kyc.revoke(alice);

    // Single transfer: revoked-KYC sender rejected.
    assert!(h.transfer(alice, bob, 100).is_err());

    // Batch transfer: same rule enforced.
    let recipients = vec![
        RecipientEntry { to: bob, amount: 100 },
    ];
    assert!(h.batch_transfer(alice, recipients).is_err());

    // Balances and holder count unchanged.
    assert_eq!(h.token.balance(alice), 1_000);
    assert_eq!(h.token.balance(bob), 0);
    assert_eq!(h.compliance.holder_count(), 1);
}

/// Over-limit recipient count (11 entries) must be rejected before any
/// validation or state mutation occurs. The sender balance is untouched.
#[test]
fn test_batch_transfer_11_recipients_rejected_before_validation() {
    let mut h = setup();
    let alice = h.generate();
    h.approve_kyc(alice);
    h.mint(alice, 10_000);

    let supply_before = h.token.total_supply();

    // 11 recipients, all KYC-approved and valid — still over the cap.
    let mut recipients = Vec::new();
    for _ in 0..11 {
        let addr = h.generate();
        h.approve_kyc(addr);
        recipients.push(RecipientEntry { to: addr, amount: 1 });
    }
    assert!(h.batch_transfer(alice, recipients).is_err());

    assert_eq!(h.token.balance(alice), 10_000);
    assert_eq!(h.token.total_supply(), supply_before);
    assert_eq!(h.compliance.holder_count(), 1); // only alice registered
}

fn make_guardians(h: &Harness, n: usize) -> Vec<Address> {
    let mut v = Vec::new();
    for _ in 0..n {
        v.push(h.generate());
    }
    v
}

#[test]
fn test_recovery_configure_and_read() {
    let mut h = setup();
    let members = make_guardians(&h, 3);
    h.configure_recovery(2, members, 100).unwrap();

    let cfg = h.token.recovery_config().unwrap();
    assert_eq!(cfg.threshold, 2);
    assert_eq!(cfg.cooldown_ledgers, 100);
    assert_eq!(cfg.last_executed_ledger, 0);

    let stored_members = h.token.recovery_members().unwrap();
    assert_eq!(stored_members.len(), 3);
}

#[test]
fn test_recovery_configure_rejects_threshold_below_two() {
    let mut h = setup();
    let members = make_guardians(&h, 3);
    let res = h.configure_recovery(1, members, 100);
    assert_eq!(res, refused(RwaError::InvalidRecoveryConfig));
}

#[test]
fn test_recovery_configure_rejects_threshold_above_member_count() {
    let mut h = setup();
    let members = make_guardians(&h, 3);
    let res = h.configure_recovery(4, members, 100);
    assert_eq!(res, refused(RwaError::InvalidRecoveryConfig));
}

#[test]
fn test_recovery_configure_rejects_more_than_ten_members() {
    let mut h = setup();
    let members = make_guardians(&h, 11);
    let res = h.configure_recovery(2, members, 100);
    assert_eq!(res, refused(RwaError::InvalidRecoveryConfig));
}

#[test]
fn test_recovery_propose_and_read_active() {
    let mut h = setup();
    let members = make_guardians(&h, 3);
    let g1 = members[0];
    h.configure_recovery(2, members, 100).unwrap();

    let new_admin = h.generate();
    h.propose_recovery(g1, new_admin).unwrap();

    let proposal = h.token.active_recovery().expect("proposal must exist");
    assert_eq!(proposal.proposed_admin, new_admin);
    assert_eq!(proposal.proposer, g1);
    assert_eq!(proposal.approvals.len(), 0);
}

#[test]
fn test_recovery_propose_rejects_while_proposal_active() {
    let mut h = setup();
    let members = make_guardians(&h, 3);
    let g1 = members[0];
    let g2 = members[1];
    h.configure_recovery(2, members, 100).unwrap();

    h.sequence = 1000;
    let admin_a = h.generate();
    h.propose_recovery(g1, admin_a).unwrap();

    // Expiry = 1000 + 100/2 = 1050; the proposal is still live at the boundary.
    h.sequence = 1050;
    let res = h.propose_recovery(g2, h.generate());
    assert_eq!(res, refused(RwaError::RecoveryAlreadyActive));
    let proposal = h.token.active_recovery().unwrap();
    assert_eq!(proposal.proposed_admin, admin_a);
    assert_eq!(proposal.proposer, g1);

    // Once expired, the stale proposal can be replaced.
    h.sequence = 1051;
    let admin_b = h.generate();
    h.propose_recovery(g2, admin_b).unwrap();
    let proposal = h.token.active_recovery().unwrap();
    assert_eq!(proposal.proposed_admin, admin_b);
    assert_eq!(proposal.proposer, g2);
}

#[test]
fn test_recovery_propose_rejects_unreachable_threshold() {
    let mut h = setup();
    let members = make_guardians(&h, 3);
    let g1 = members[0];
    // 3-of-3 passes configure, but the proposer cannot approve, so only 2
    // approvals are ever reachable.
    h.configure_recovery(3, members, 100).unwrap();

    let res = h.propose_recovery(g1, h.generate());
    assert_eq!(res, refused(RwaError::InvalidRecoveryConfig));
    assert!(h.token.active_recovery().is_none());
}

#[test]
fn test_recovery_approve_increases_approval_count() {
    let mut h = setup();
    let members = make_guardians(&h, 3);
    let g1 = members[0];
    let g2 = members[1];
    h.configure_recovery(2, members, 100).unwrap();
    h.propose_recovery(g1, h.generate()).unwrap();

    h.approve_recovery(g2).unwrap();

    let proposal = h.token.active_recovery().unwrap();
    assert_eq!(proposal.approvals.len(), 1);
    assert!(proposal.approvals.contains(&g2));
}

#[test]
fn test_recovery_approve_duplicate_panics() {
    let mut h = setup();
    let members = make_guardians(&h, 3);
    let g1 = members[0];
    let g2 = members[1];
    h.configure_recovery(2, members, 100).unwrap();
    h.propose_recovery(g1, h.generate()).unwrap();
    h.approve_recovery(g2).unwrap();

    let res = h.approve_recovery(g2);
    assert_eq!(res, refused(RwaError::AlreadyApproved));
}

#[test]
fn test_recovery_proposer_cannot_approve() {
    let mut h = setup();
    let members = make_guardians(&h, 3);
    let g1 = members[0];
    h.configure_recovery(2, members, 100).unwrap();
    h.propose_recovery(g1, h.generate()).unwrap();

    let res = h.approve_recovery(g1);
    assert_eq!(res, refused(RwaError::ProposerCannotApprove));
}

#[test]
fn test_recovery_expired_proposal_blocks_approve() {
    let mut h = setup();
    let members = make_guardians(&h, 3);
    let g1 = members[0];
    let g2 = members[1];
    h.configure_recovery(2, members, 100).unwrap();

    h.sequence = 1000;
    h.propose_recovery(g1, h.generate()).unwrap();
    // Expiry = 1000 + 100/2 = 1050
    h.sequence = 1051;

    let res = h.approve_recovery(g2);
    assert_eq!(res, refused(RwaError::RecoveryExpired));
}

#[test]
fn test_recovery_execute_rejects_expired_proposal() {
    let mut h = setup();
    let members = make_guardians(&h, 3);
    let g1 = members[0];
    let g2 = members[1];
    let g3 = members[2];
    h.configure_recovery(2, members, 100).unwrap();
    let nonce_before = h.token.admin_nonce();

    h.sequence = 1000;
    h.propose_recovery(g1, h.generate()).unwrap();
    h.approve_recovery(g2).unwrap();
    h.approve_recovery(g3).unwrap();
    // Fully approved, but expiry = 1000 + 100/2 = 1050.
    h.sequence = 1051;

    let res = h.execute_recovery(g1);
    assert_eq!(res, refused(RwaError::RecoveryExpired));
    assert_eq!(h.token.admin_nonce(), nonce_before);
    assert_eq!(h.token.recovery_config().unwrap().last_executed_ledger, 0);
    assert!(h.token.active_recovery().is_some());
}

#[test]
fn test_recovery_execute_replaces_admin_and_bumps_nonce() {
    let mut h = setup();
    let members = make_guardians(&h, 3);
    let g1 = members[0];
    let g2 = members[1];
    let g3 = members[2];
    h.configure_recovery(2, members, 0).unwrap(); // cooldown=0 for simplicity
    let new_admin = h.generate();
    let nonce_before = h.token.admin_nonce();

    h.propose_recovery(g1, new_admin).unwrap();
    h.approve_recovery(g2).unwrap();
    h.approve_recovery(g3).unwrap();
    h.execute_recovery(g1).unwrap();

    // The event tells the old and the new admin
    let event = h.last_event("rcv_exe").expect("recovery_executed event should be emitted");
    assert_eq!(event.subjects().len(), 0);
    assert_eq!(event.data(), vec![Value::Address(h.admin), Value::Address(new_admin)]);
    assert_ne!(h.admin, new_admin);

    // Active proposal cleared
    assert!(h.token.active_recovery().is_none());
    // AdminNonce bumped
    assert!(h.token.admin_nonce() > nonce_before);
    // last_executed_ledger updated
    assert!(h.token.recovery_config().unwrap().last_executed_ledger > 0 || h.sequence == 0);
}

#[test]
fn test_recovery_execute_insufficient_approvals_panics() {
    let mut h = setup();
    let members = make_guardians(&h, 3);
    let g1 = members[0];
    let g2 = members[1];
    h.configure_recovery(2, members, 0).unwrap();
    h.propose_recovery(g1, h.generate()).unwrap();
    h.approve_recovery(g2).unwrap(); // only 1 of 2 required

    let res = h.execute_recovery(g1);
    assert_eq!(res, refused(RwaError::InsufficientApprovals));
}

#[test]
fn test_recovery_cooldown_blocks_immediate_second_execution() {
    let mut h = setup();
    let members = make_guardians(&h, 3);
    let g1 = members[0];
    let g2 = members[1];
    let g3 = members[2];
    h.configure_recovery(2, members, 100).unwrap();
    let admin1 = h.generate();
    let admin2 = h.generate();

    h.sequence = 1000;
    h.propose_recovery(g1, admin1).unwrap();
    h.approve_recovery(g2).unwrap();
    h.approve_recovery(g3).unwrap();
    h.execute_recovery(g1).unwrap();

    // Attempt second recovery immediately after (cooldown=100, so need seq >= 1100)
    h.sequence = 1001;
    h.propose_recovery(g1, admin2).unwrap();
    h.approve_recovery(g2).unwrap();
    h.approve_recovery(g3).unwrap();

    let res = h.execute_recovery(g1);
    assert_eq!(res, refused(RwaError::RecoveryCooldown));
}

#[test]
fn test_recovery_cancel_clears_active_proposal() {
    let mut h = setup();
    let members = make_guardians(&h, 3);
    let g1 = members[0];
    h.configure_recovery(2, members, 100).unwrap();
    h.propose_recovery(g1, h.generate()).unwrap();
    assert!(h.token.active_recovery().is_some());

    h.cancel_recovery().unwrap();
    assert!(h.token.active_recovery().is_none());
}

#[test]
fn test_recovery_cancel_no_active_panics() {
    let mut h = setup();
    let members = make_guardians(&h, 3);
    h.configure_recovery(2, members, 100).unwrap();

    let res = h.cancel_recovery();
    assert_eq!(res, refused(RwaError::NoActiveRecovery));
}

#[test]
fn test_recovery_non_guardian_propose_panics() {
    let mut h = setup();
    let members = make_guardians(&h, 3);
    h.configure_recovery(2, members, 100).unwrap();
    let stranger = h.generate();
    let res = h.propose_recovery(stranger, h.generate());
    assert_eq!(res, refused(RwaError::NotRecoveryMember));
}

#[test]
fn test_recovery_configure_invalidates_active_proposal() {
    let mut h = setup();
    let members = make_guardians(&h, 3);
    let g1 = members[0];
    h.configure_recovery(2, members, 100).unwrap();
    h.propose_recovery(g1, h.generate()).unwrap();
    assert!(h.token.active_recovery().is_some());

    let new_members = make_guardians(&h, 2);
    h.configure_recovery(2, new_members, 50).unwrap();
    assert!(h.token.active_recovery().is_none());
}

#[test]
fn test_recovery_new_admin_can_mint_after_recovery() {
    let mut h = setup();
    let members = make_guardians(&h, 3);
    let g1 = members[0];
    let g2 = members[1];
    let g3 = members[2];
    h.configure_recovery(2, members, 0).unwrap();
    let new_admin = h.generate();

    h.propose_recovery(g1, new_admin).unwrap();
    h.approve_recovery(g2).unwrap();
    h.approve_recovery(g3).unwrap();
    h.execute_recovery(g1).unwrap();

    let investor = h.generate();
    h.approve_kyc(investor);
    h.mint_as(new_admin, investor, 500).unwrap();
    assert_eq!(h.token.balance(investor), 500);
}

#[test]
fn test_propose_admin_second_call_emits_pending_admin_cleared() {
    let mut h = setup();
    let count_clear_events = |h: &Harness| -> usize {
        h.events.iter().filter(|event| event.topic() == "adm_clr").count()
    };

    // First proposal: no prior pending admin, so no clear event is emitted.
    h.propose_admin(h.admin, h.generate(), h.next_nonce()).unwrap();
    assert_eq!(count_clear_events(&h), 0);

    // Second proposal overwrites the first pending admin — must emit adm_clr.
    h.propose_admin(h.admin, h.generate(), h.next_nonce()).unwrap();
    assert_eq!(count_clear_events(&h), 1);
}

#[test]
fn test_propose_admin_rejects_current_admin() {
    let mut h = setup();
    // Proposing the sitting admin as their own successor is rejected with a
    // typed error rather than silently succeeding.
    let res = h.propose_admin(h.admin, h.admin, h.next_nonce());
    assert_eq!(res, refused(RwaError::AlreadyAdmin));

    // The rejected call must not have consumed the admin nonce.
    assert_eq!(h.token.admin_nonce(), 0);
}

#[test]
fn test_accept_admin_no_pending() {
    let mut h = setup();
    // No propose_admin call has been made, so there is no pending admin.
    let res = h.accept_admin();
    assert_eq!(res, refused(RwaError::NoPendingAdmin));
}

#[test]
fn test_propose_admin_accepts_different_address() {
    let mut h = setup();
    let new_admin = h.generate();

    // A distinct address completes the two-step handover.
    h.propose_admin(h.admin, new_admin, h.next_nonce()).unwrap();
    h.accept_admin().unwrap();

    let investor = h.generate();
    h.approve_kyc(investor);
    h.mint_as(new_admin, investor, 100).unwrap();
    assert_eq!(h.token.balance(investor), 100);
}

#[test]
fn test_accept_admin_event_includes_admin_nonce() {
    let mut h = setup();
    let new_admin = h.generate();
    h.propose_admin(h.admin, new_admin, h.next_nonce()).unwrap();
    h.accept_admin().unwrap();

    let event = h.last_event("adm_set").expect("admin-set event should be emitted");
    assert_eq!(event.subjects().len(), 0);
    assert_eq!(
        event.data(),
        vec![Value::Address(h.admin), Value::Address(new_admin), Value::U64(1)]
    );
}

/// An approval with an `expiration_ledger` strictly before the current ledger
/// sequence is refused with `AllowanceExpired`, nothing is stored, and a
/// subsequent `transfer_from` fails too.
#[test]
fn test_set_allowance_past_expiry() {
    let mut h = setup();
    let alice = h.generate();
    let bob = h.generate();
    let spender = h.generate();
    h.approve_kyc(alice);
    h.approve_kyc(bob);
    h.mint(alice, 1_000);

    // Advance the ledger so we have a non-zero sequence to subtract from.
    h.sequence = 100;
    let current_seq = h.sequence;

    // expiry_ledger is strictly in the past.
    let past_expiry = current_seq - 1;

    // The approve call itself must fail with AllowanceExpired.
    let res = h.approve(alice, spender, 300, past_expiry);
    assert_eq!(
        res,
        refused(RwaError::AllowanceExpired),
        "approve with past expiry_ledger must be rejected with AllowanceExpired"
    );

    // No allowance was written: the stored amount must be zero.
    assert_eq!(
        h.allowance(alice, spender),
        0,
        "no allowance should be stored after a rejected approve"
    );

    // A subsequent transfer_from must also fail (no usable allowance).
    let transfer_res = h.transfer_from(spender, alice, bob, 1);
    assert!(
        transfer_res.is_err(),
        "transfer_from must fail when no allowance was written"
    );

    // Alice's balance is untouched.
    assert_eq!(h.token.balance(alice), 1_000);
}

/// Burning the exact total supply in one call drives both the holder's balance
/// and `total_supply()` to zero.
#[test]
fn test_burn_entire_supply() {
    let mut h = setup();
    let holder = h.generate();
    h.approve_kyc(holder);
    h.mint(holder, 1_000);

    assert_eq!(h.token.total_supply(), 1_000);
    assert_eq!(h.token.balance(holder), 1_000);
    // Holder is registered in the compliance engine.
    assert_eq!(h.compliance.holder_count(), 1);

    // Burn the exact total supply.
    h.burn(holder, 1_000).unwrap();

    assert_eq!(
        h.token.total_supply(),
        0,
        "total_supply must be 0 after burning the full supply"
    );
    assert_eq!(
        h.token.balance(holder),
        0,
        "holder balance must be 0 after burning their entire balance"
    );
    // The holder should be deregistered once their balance reaches zero.
    assert_eq!(
        h.compliance.holder_count(),
        0,
        "holder must be deregistered after balance is drained to zero"
    );
}
