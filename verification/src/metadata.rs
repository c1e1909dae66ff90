//! Deployment, and what the token says about itself.

use vstd::prelude::*;

use crate::admin::{admin_steps, consume_nonce, next_nonce, nonce_steps, require_admin};
use crate::compliance::{metadata_of, read_metadata, write_metadata};
use crate::events::{emit_external_uri, emit_external_uri_cleared, Event};
use crate::host::{play, Env, Step};
use crate::invariants::{deployment_is_well_formed, well_formed};
use crate::roles::{require_admin_or_role, role_steps, ROLE_COMPLIANCE};
use crate::table::Table;
use crate::token::{settles, RwaToken, TokenView};
use crate::types::{Address, ComplianceMetadata, Halt, RwaError, TokenExportMetadata, Trap};
use crate::versioning::{CONTRACT_VERSION, INITIAL_SCHEMA_VERSION};

verus! {

broadcast use crate::host::group_play;

pub const META_LEGAL_ENTITY: &'static str = "legal_ent";

pub const META_GOVERNING_LAW: &'static str = "gov_law";

pub const META_ISIN: &'static str = "isin";

pub const META_PROSPECTUS_HASH: &'static str = "pros_hash";

pub const ASSET_INVOICE: &'static str = "invoice";

pub const ASSET_PROPERTY: &'static str = "property";

pub const ASSET_CARBON_CREDIT: &'static str = "carbon_credit";

/// Whether an asset type is one of the supported ones.
pub open spec fn supported_asset(asset_type: Seq<char>) -> bool {
    ||| asset_type == ASSET_INVOICE@
    ||| asset_type == ASSET_PROPERTY@
    ||| asset_type == ASSET_CARBON_CREDIT@
}

/// The metadata with the field under `key` set to `value`, if there is one.
pub open spec fn with_field(
    meta: Map<Seq<char>, String>,
    key: Seq<char>,
    value: Option<String>,
) -> Map<Seq<char>, String> {
    match value {
        Some(value) => meta.insert(key, value),
        None => meta,
    }
}

/// The metadata that a deployment starts with.
pub open spec fn initial_metadata(meta: Option<ComplianceMetadata>) -> Map<Seq<char>, String> {
    match meta {
        Some(meta) => with_field(
            with_field(
                with_field(
                    with_field(Map::empty(), META_LEGAL_ENTITY@, meta.legal_entity),
                    META_GOVERNING_LAW@,
                    meta.governing_law,
                ),
                META_ISIN@,
                meta.isin,
            ),
            META_PROSPECTUS_HASH@,
            meta.prospectus_hash,
        ),
        None => Map::empty(),
    }
}

/// A token as it is deployed, with `version` as its stored version.
pub open spec fn deployed(
    admin: Address,
    decimals: u32,
    name: String,
    symbol: String,
    asset_type: String,
    kyc_registry: Address,
    compliance_engine: Address,
    meta: Option<ComplianceMetadata>,
    max_supply: i128,
    version: String,
) -> TokenView {
    TokenView {
        admin: Some(admin),
        pending_admin: None,
        admin_nonce: 0,
        roles: Map::empty(),
        kyc_registry,
        compliance_engine,
        decimals,
        name,
        symbol,
        asset_type,
        compliance_meta: initial_metadata(meta),
        external_uri: None,
        balances: Map::empty(),
        total_supply: 0,
        max_supply,
        frozen: Map::empty(),
        allowances: Map::empty(),
        transfer_lock: false,
        version,
        migration_count: 0,
        migrations: Map::empty(),
        schema_version: INITIAL_SCHEMA_VERSION,
        schema_migration_count: 0,
        schema_migrations: Map::empty(),
        recovery_config: None,
        recovery_members: None,
        recovery_threshold: None,
        active_recovery: None,
    }
}

/// A text field as a value: an empty text counts as none.
pub open spec fn present(text: Seq<char>) -> Option<Seq<char>> {
    if text.len() == 0 {
        None
    } else {
        Some(text)
    }
}

/// The characters of an optional text.
pub open spec fn text_of(text: Option<String>) -> Option<Seq<char>> {
    match text {
        Some(text) => Some(text@),
        None => None,
    }
}

pub open spec fn set_compliance_metadata_steps(
    token: TokenView,
    caller: Address,
    nonce: u64,
) -> Seq<Step> {
    role_steps(token, caller, ROLE_COMPLIANCE@) + nonce_steps(token, nonce)
}

pub open spec fn set_external_uri_steps(token: TokenView, uri: String) -> Seq<Step> {
    admin_steps(token).push(
        Step::Emit(
            if uri@.len() == 0 {
                Event::ExternalUriCleared
            } else {
                Event::ExternalUri { uri }
            },
        ),
    )
}

/// Sets a metadata field, if there is a value for it.
fn write_optional(token: &mut RwaToken, key: &str, value: Option<String>)
    ensures
        final(token)@ == (TokenView {
            compliance_meta: with_field(old(token)@.compliance_meta, key@, value),
            ..old(token)@
        }),
{
    if let Some(value) = value {
        write_metadata(token, key.to_owned(), value);
    }
}

/// Returns the metadata field under `key`, or `None` if it is empty.
fn read_optional(token: &RwaToken, key: &str) -> (value: Option<String>)
    ensures
        text_of(value) == present(metadata_of(token@, key@)),
{
    let value = read_metadata(token, &key.to_owned());
    if value.as_str().is_empty() {
        None
    } else {
        Some(value)
    }
}

impl RwaToken {
    /// Deploys a token. The asset type has to be one of `"invoice"`,
    /// `"property"` and `"carbon_credit"`; a supply cap of zero means none.
    pub fn __constructor(
        admin: Address,
        decimal: u32,
        name: String,
        symbol: String,
        asset_type: String,
        kyc_registry: Address,
        compliance_engine: Address,
        compliance_metadata: Option<ComplianceMetadata>,
        max_supply: i128,
    ) -> (result: Result<RwaToken, Halt>)
        ensures
            match result {
                Ok(token) => {
                    &&& supported_asset(asset_type@)
                    &&& max_supply >= 0
                    &&& token.version@ == CONTRACT_VERSION@
                    &&& token@ == deployed(
                        admin,
                        decimal,
                        name,
                        symbol,
                        asset_type,
                        kyc_registry,
                        compliance_engine,
                        compliance_metadata,
                        max_supply,
                        token.version,
                    )
                    &&& well_formed(token@)
                },
                Err(halt) => if !supported_asset(asset_type@) {
                    halt == Halt::Trap(Trap::InvalidAssetType)
                } else {
                    max_supply < 0 && halt == Halt::Error(RwaError::NegativeAmount)
                },
            },
    {
        if asset_type != ASSET_INVOICE.to_owned() && asset_type != ASSET_PROPERTY.to_owned()
            && asset_type != ASSET_CARBON_CREDIT.to_owned() {
            return Err(Halt::Trap(Trap::InvalidAssetType));
        }
        if max_supply < 0 {
            return Err(Halt::Error(RwaError::NegativeAmount));
        }
        let mut token = RwaToken {
            admin: Some(admin),
            pending_admin: None,
            admin_nonce: 0,
            roles: Table::new(),
            kyc_registry,
            compliance_engine,
            decimals: decimal,
            name,
            symbol,
            asset_type,
            compliance_meta: Table::new(),
            external_uri: None,
            balances: Table::new(),
            total_supply: 0,
            max_supply,
            frozen: Table::new(),
            allowances: Table::new(),
            transfer_lock: false,
            version: CONTRACT_VERSION.to_owned(),
            migration_count: 0,
            migrations: Table::new(),
            schema_version: INITIAL_SCHEMA_VERSION,
            schema_migration_count: 0,
            schema_migrations: Table::new(),
            recovery_config: None,
            recovery_members: None,
            recovery_threshold: None,
            active_recovery: None,
        };
        if let Some(meta) = compliance_metadata {
            write_optional(&mut token, META_LEGAL_ENTITY, meta.legal_entity);
            write_optional(&mut token, META_GOVERNING_LAW, meta.governing_law);
            write_optional(&mut token, META_ISIN, meta.isin);
            write_optional(&mut token, META_PROSPECTUS_HASH, meta.prospectus_hash);
        }
        proof {
            deployment_is_well_formed(
                admin,
                decimal,
                name,
                symbol,
                asset_type,
                kyc_registry,
                compliance_engine,
                compliance_metadata,
                max_supply,
                token.version,
            );
        }
        Ok(token)
    }

    /// The entry point that deployment made obsolete: it is always refused.
    pub fn initialize(
        &self,
        _admin: Address,
        _decimal: u32,
        _name: String,
        _symbol: String,
        _asset_type: String,
        _kyc_registry: Address,
        _compliance_engine: Address,
    ) -> (result: Result<(), Halt>)
        ensures
            result == Err::<(), Halt>(Halt::Error(RwaError::AlreadyInitialized)),
    {
        Err(Halt::Error(RwaError::AlreadyInitialized))
    }

    /// Returns the number of decimals.
    pub fn decimals(&self) -> (decimals: u32)
        ensures
            decimals == self@.decimals,
    {
        self.decimals
    }

    /// Returns the token's name.
    pub fn name(&self) -> (name: String)
        ensures
            name == self@.name,
    {
        self.name.clone()
    }

    /// Returns the token's symbol.
    pub fn symbol(&self) -> (symbol: String)
        ensures
            symbol == self@.symbol,
    {
        self.symbol.clone()
    }

    /// Returns the asset type.
    pub fn asset_type(&self) -> (asset_type: String)
        ensures
            asset_type == self@.asset_type,
    {
        self.asset_type.clone()
    }

    /// Returns the version of the contract code.
    pub fn version(&self) -> (version: String)
        ensures
            version@ == CONTRACT_VERSION@,
    {
        CONTRACT_VERSION.to_owned()
    }

    /// Sets a metadata field. `caller` must be the admin or the
    /// `"compliance"` role holder. Nonce-protected.
    pub fn set_compliance_metadata(
        &mut self,
        env: &mut Env,
        caller: Address,
        key: String,
        value: String,
        nonce: u64,
    ) -> (result: Result<(), Halt>)
        ensures
            settles(
                old(self)@,
                final(self)@,
                old(env)@,
                final(env)@,
                result,
                set_compliance_metadata_steps(old(self)@, caller, nonce),
                (TokenView {
                    compliance_meta: old(self)@.compliance_meta.insert(key@, value),
                    admin_nonce: next_nonce(old(self)@),
                    ..old(self)@
                }),
            ),
    {
        reveal_with_fuel(play, 3);
        require_admin_or_role(self, env, caller, ROLE_COMPLIANCE)?;
        self.admin_nonce = consume_nonce(self, nonce)?;
        write_metadata(self, key, value);
        Ok(())
    }

    /// Returns a metadata field; it is empty where it was never set.
    pub fn get_compliance_metadata(&self, key: String) -> (value: String)
        ensures
            value@ == metadata_of(self@, key@),
    {
        read_metadata(self, &key)
    }

    /// Returns the metadata fields with a fixed key. An empty one counts as
    /// absent.
    pub fn get_all_compliance_metadata(&self) -> (meta: ComplianceMetadata)
        ensures
            text_of(meta.legal_entity) == present(metadata_of(self@, META_LEGAL_ENTITY@)),
            text_of(meta.governing_law) == present(metadata_of(self@, META_GOVERNING_LAW@)),
            text_of(meta.isin) == present(metadata_of(self@, META_ISIN@)),
            text_of(meta.prospectus_hash) == present(metadata_of(self@, META_PROSPECTUS_HASH@)),
    {
        ComplianceMetadata {
            legal_entity: read_optional(self, META_LEGAL_ENTITY),
            governing_law: read_optional(self, META_GOVERNING_LAW),
            isin: read_optional(self, META_ISIN),
            prospectus_hash: read_optional(self, META_PROSPECTUS_HASH),
        }
    }

    /// Sets the URI of a metadata document outside the chain, or clears it if
    /// `uri` is empty. Admin-only.
    pub fn set_external_uri(&mut self, env: &mut Env, uri: String) -> (result: Result<(), Halt>)
        ensures
            settles(
                old(self)@,
                final(self)@,
                old(env)@,
                final(env)@,
                result,
                set_external_uri_steps(old(self)@, uri),
                (TokenView {
                    external_uri: if uri@.len() == 0 {
                        None
                    } else {
                        Some(uri)
                    },
                    ..old(self)@
                }),
            ),
    {
        reveal_with_fuel(play, 3);
        require_admin(self, env)?;
        if uri.as_str().is_empty() {
            self.external_uri = None;
            emit_external_uri_cleared(env);
            return Ok(());
        }
        self.external_uri = Some(uri.clone());
        emit_external_uri(env, uri);
        Ok(())
    }

    /// Returns the external URI; it is empty where none is set.
    pub fn get_external_uri(&self) -> (uri: String)
        ensures
            uri@ == (match self@.external_uri {
                Some(uri) => uri@,
                None => Seq::empty(),
            }),
    {
        match &self.external_uri {
            Some(uri) => uri.clone(),
            None => String::new(),
        }
    }

    /// Returns everything that outside integrations read of the token.
    pub fn get_token_export(&self) -> (export: TokenExportMetadata)
        ensures
            export.name == self@.name,
            export.symbol == self@.symbol,
            export.decimals == self@.decimals,
            export.asset_type == self@.asset_type,
            export.total_supply == self@.total_supply,
            export.max_supply == self@.max_supply,
            export.contract_version@ == CONTRACT_VERSION@,
            export.kyc_registry == self@.kyc_registry,
            export.compliance_engine == self@.compliance_engine,
            text_of(export.legal_entity) == present(metadata_of(self@, META_LEGAL_ENTITY@)),
            text_of(export.governing_law) == present(metadata_of(self@, META_GOVERNING_LAW@)),
            text_of(export.isin) == present(metadata_of(self@, META_ISIN@)),
            text_of(export.prospectus_hash) == present(
                metadata_of(self@, META_PROSPECTUS_HASH@),
            ),
            export.external_uri == self@.external_uri,
    {
        TokenExportMetadata {
            name: self.name(),
            symbol: self.symbol(),
            decimals: self.decimals(),
            asset_type: self.asset_type(),
            total_supply: self.total_supply(),
            max_supply: self.max_supply(),
            contract_version: self.version(),
            kyc_registry: self.kyc_registry(),
            compliance_engine: self.compliance_engine(),
            legal_entity: read_optional(self, META_LEGAL_ENTITY),
            governing_law: read_optional(self, META_GOVERNING_LAW),
            isin: read_optional(self, META_ISIN),
            prospectus_hash: read_optional(self, META_PROSPECTUS_HASH),
            external_uri: match &self.external_uri {
                Some(uri) => Some(uri.clone()),
                None => None,
            },
        }
    }
}

} // verus!
