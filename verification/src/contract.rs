//! The authorization engine: it authenticates relayers and owners, keeps the
//! allowlists, and gates every request for a signature.

use vstd::prelude::*;
use crate::error::PermissionError;
use crate::keyed::{
    assoc_map,
    entries_distinct,
    entry_keys,
    find_entry,
    find_nonce,
    find_string,
    insert_nonce,
    insert_pair,
    lemma_assoc_lookup,
    lemma_assoc_push,
    lemma_assoc_update,
    lemma_push_distinct,
    lemma_set_push,
    lemma_set_remove,
    nonce_views,
    pair_views,
    pairs_distinct,
    remove_pair,
    string_views,
    strings_distinct,
};
use crate::laws::{
    law_administration_keeps_coherence,
    law_approval_keeps_coherence,
    law_initial_state,
    law_operation_names_its_key,
    law_resolved_operations_name_their_key,
    law_registration_keeps_coherence,
    law_release_keeps_coherence,
    law_reservation_keeps_coherence,
    law_revocation_keeps_coherence,
};
use crate::model::{
    price_error,
    sign_request,
    user_signature_valid,
    ContractModel,
    PermissionsModel,
    PRICE_FRESHNESS_NS,
};
use crate::request::{build_sign_request, SignRequest};
use crate::signature::{verify_evm_signature, verify_near_signature, verify_solana_signature};
use crate::store::{clone_operations, operation_views, UserPermissions};
use crate::text::{bytes_equal, make_operation_id, registration_message};
use crate::types::{
    AllowedOperation,
    AllowedOperationInput,
    AllowedOperationType,
    DerivationPath,
    OperationModel,
    PriceCondition,
    RegisteredWallet,
    WalletModel,
    WalletType,
};

verus! {

/// What the host tells the engine about the call it is serving.
#[derive(Debug)]
pub struct CallContext {
    /// The account that made the call.
    pub predecessor: String,
    /// The time of the block, in nanoseconds since the epoch.
    pub block_timestamp: u64,
}

/// The permission sets of a list of entries.
pub open spec fn permission_values(s: Seq<(String, UserPermissions)>) -> Seq<PermissionsModel> {
    s.map_values(|e: (String, UserPermissions)| e.1@)
}

/// The identity keys that a list of wallet entries leads to.
pub open spec fn path_values(s: Seq<(String, String)>) -> Seq<Seq<char>> {
    s.map_values(|e: (String, String)| e.1@)
}

/// The engine's state.
#[derive(Debug)]
pub struct PermissionContract {
    /// The administrator.
    pub owner: String,
    /// The permission set of each identity key; no key occurs twice.
    pub permissions: Vec<(DerivationPath, UserPermissions)>,
    /// The identity key of each wallet address; no address occurs twice.
    pub wallet_to_path: Vec<(String, DerivationPath)>,
    /// The relayers that may submit requests; none occurs twice.
    pub tee_relayers: Vec<String>,
    /// The account of the external signer.
    pub mpc_contract: String,
    /// The operations that wait for execution, as pairs of identity key and
    /// operation id, oldest first; none occurs twice.
    pub active_operations: Vec<(DerivationPath, String)>,
    /// The pairs of address and nonce that a registration has consumed.
    pub used_nonces: Vec<(String, u64)>,
}

impl View for PermissionContract {
    type V = ContractModel;

    open spec fn view(&self) -> ContractModel {
        ContractModel {
            owner: self.owner@,
            mpc_contract: self.mpc_contract@,
            relayers: string_views(self.tee_relayers@).to_set(),
            permissions: assoc_map(
                entry_keys(self.permissions@),
                permission_values(self.permissions@),
            ),
            wallet_to_path: assoc_map(
                entry_keys(self.wallet_to_path@),
                path_values(self.wallet_to_path@),
            ),
            active: pair_views(self.active_operations@),
            used_nonces: nonce_views(self.used_nonces@).to_set(),
        }
    }
}

/// Replacing the permission set of one entry replaces it in the map.
proof fn lemma_permissions_replaced(
    before: Seq<(String, UserPermissions)>,
    after: Seq<(String, UserPermissions)>,
    i: int,
)
    requires
        entry_keys(before).no_duplicates(),
        0 <= i < before.len(),
        after.len() == before.len(),
        forall|j: int| 0 <= j < before.len() && j != i ==> after[j] == before[j],
        after[i].0@ == before[i].0@,
    ensures
        entry_keys(after) == entry_keys(before),
        assoc_map(entry_keys(after), permission_values(after)) == assoc_map(
            entry_keys(before),
            permission_values(before),
        ).insert(before[i].0@, after[i].1@),
{
    assert(entry_keys(after) =~= entry_keys(before));
    assert(permission_values(after) =~= permission_values(before).update(i, after[i].1@));
    lemma_assoc_update(entry_keys(before), permission_values(before), i, after[i].1@);
}

impl PermissionContract {
    /// No key occurs twice in any of the lists, and every permission set is
    /// well formed.
    pub open spec fn wf(&self) -> bool {
        &&& string_views(self.tee_relayers@).no_duplicates()
        &&& entry_keys(self.permissions@).no_duplicates()
        &&& entry_keys(self.wallet_to_path@).no_duplicates()
        &&& pair_views(self.active_operations@).no_duplicates()
        &&& forall|i: int|
            0 <= i < self.permissions@.len() ==> (#[trigger] self.permissions@[i]).1.wf()
    }

    /// The model of a well-formed engine is well formed.
    pub proof fn lemma_model_wf(&self)
        requires
            self.wf(),
        ensures
            self@.wf(),
    {
        let keys = entry_keys(self.permissions@);
        let values = permission_values(self.permissions@);
        assert forall|path: Seq<char>| #[trigger]
            self@.permissions.dom().contains(path) implies self@.permissions[path].wf() by {
            let i = keys.index_of(path);
            assert(0 <= i < keys.len() && keys[i] == path);
            assert(self.permissions@[i].1.wf());
        }
    }

    /// Whether this state is well formed. A state that the engine has made
    /// is; one that was put together by hand need not be.
    pub fn is_well_formed(&self) -> (ok: bool)
        ensures
            ok == self.wf(),
    {
        if !strings_distinct(&self.tee_relayers) || !entries_distinct(&self.permissions)
            || !entries_distinct(&self.wallet_to_path) || !pairs_distinct(
            &self.active_operations,
        ) {
            return false;
        }
        let mut i: usize = 0;
        while i < self.permissions.len()
            invariant
                i <= self.permissions@.len(),
                forall|j: int| 0 <= j < i ==> (#[trigger] self.permissions@[j]).1.wf(),
            decreases self.permissions@.len() - i,
        {
            if !self.permissions[i].1.is_well_formed() {
                return false;
            }
            i += 1;
        }
        true
    }

    /// A new engine with the given administrator and signer.
    pub fn new(owner: String, mpc_contract: String) -> (contract: PermissionContract)
        ensures
            contract.wf(),
            contract@ == ContractModel::initial(owner@, mpc_contract@),
            contract@.coherent(),
    {
        proof {
            law_initial_state(owner@, mpc_contract@);
        }
        let contract = PermissionContract {
            owner,
            permissions: Vec::new(),
            wallet_to_path: Vec::new(),
            tee_relayers: Vec::new(),
            mpc_contract,
            active_operations: Vec::new(),
            used_nonces: Vec::new(),
        };
        assert(contract@.relayers =~= Set::empty());
        assert(contract@.used_nonces =~= Set::empty());
        assert(contract@.permissions =~= Map::empty());
        assert(contract@.wallet_to_path =~= Map::empty());
        assert(contract@.active =~= Seq::empty());
        contract
    }

    /// Lets the administrator pass and turns everybody else down.
    pub fn assert_owner(&self, ctx: &CallContext) -> (res: Result<(), PermissionError>)
        ensures
            res == match self@.owner_error(ctx.predecessor@) {
                Some(e) => Err::<(), PermissionError>(e),
                None => Ok(()),
            },
    {
        if ctx.predecessor == self.owner {
            Ok(())
        } else {
            Err(PermissionError::NotOwner)
        }
    }

    /// Lets an authorized relayer pass and turns everybody else down.
    pub fn assert_tee_relayer(&self, ctx: &CallContext) -> (res: Result<(), PermissionError>)
        ensures
            res == match self@.relayer_error(ctx.predecessor@) {
                Some(e) => Err::<(), PermissionError>(e),
                None => Ok(()),
            },
    {
        match find_string(&self.tee_relayers, &ctx.predecessor) {
            Some(_) => Ok(()),
            None => Err(PermissionError::NotRelayer),
        }
    }

    /// Authorizes a relayer. Only the administrator may do so.
    pub fn register_tee_relayer(&mut self, ctx: &CallContext, relayer_account: String) -> (res:
        Result<(), PermissionError>)
        requires
            old(self).wf(),
        ensures
            final(self).wf(),
            match old(self)@.owner_error(ctx.predecessor@) {
                Some(e) => res == Err::<(), PermissionError>(e) && *final(self) == *old(self),
                None => res is Ok && final(self)@ == old(self)@.with_relayer(relayer_account@),
            },
            old(self)@.coherent() ==> final(self)@.coherent(),
    {
        if let Err(e) = self.assert_owner(ctx) {
            return Err(e);
        }
        proof {
            if old(self)@.coherent() {
                law_administration_keeps_coherence(old(self)@, old(self)@.with_relayer(relayer_account@));
            }
        }
        if find_string(&self.tee_relayers, &relayer_account).is_none() {
            proof {
                lemma_push_distinct(string_views(self.tee_relayers@), relayer_account@);
                lemma_set_push(string_views(self.tee_relayers@), relayer_account@);
            }
            self.tee_relayers.push(relayer_account);
            assert(string_views(self.tee_relayers@) =~= string_views(old(self).tee_relayers@).push(
                relayer_account@,
            ));
        } else {
            assert(old(self)@.relayers.insert(relayer_account@) =~= old(self)@.relayers);
        }
        Ok(())
    }

    /// Withdraws a relayer's authorization. Only the administrator may do
    /// so.
    pub fn remove_tee_relayer(&mut self, ctx: &CallContext, relayer_account: String) -> (res:
        Result<(), PermissionError>)
        requires
            old(self).wf(),
        ensures
            final(self).wf(),
            match old(self)@.owner_error(ctx.predecessor@) {
                Some(e) => res == Err::<(), PermissionError>(e) && *final(self) == *old(self),
                None => res is Ok && final(self)@ == old(self)@.without_relayer(relayer_account@),
            },
            old(self)@.coherent() ==> final(self)@.coherent(),
    {
        if let Err(e) = self.assert_owner(ctx) {
            return Err(e);
        }
        proof {
            if old(self)@.coherent() {
                law_administration_keeps_coherence(old(self)@, old(self)@.without_relayer(relayer_account@));
            }
        }
        match find_string(&self.tee_relayers, &relayer_account) {
            Some(i) => {
                proof {
                    lemma_set_remove(string_views(self.tee_relayers@), i as int);
                }
                let _ = self.tee_relayers.remove(i);
                assert(string_views(self.tee_relayers@) =~= string_views(
                    old(self).tee_relayers@,
                ).remove(i as int));
            },
            None => {
                assert(old(self)@.relayers.remove(relayer_account@) =~= old(self)@.relayers);
            },
        }
        Ok(())
    }

    /// Names another account as the external signer. Only the administrator
    /// may do so.
    pub fn update_mpc_contract(&mut self, ctx: &CallContext, mpc_contract: String) -> (res: Result<
        (),
        PermissionError,
    >)
        requires
            old(self).wf(),
        ensures
            final(self).wf(),
            match old(self)@.owner_error(ctx.predecessor@) {
                Some(e) => res == Err::<(), PermissionError>(e) && *final(self) == *old(self),
                None => res is Ok && final(self)@ == old(self)@.with_mpc_contract(mpc_contract@),
            },
            old(self)@.coherent() ==> final(self)@.coherent(),
    {
        if let Err(e) = self.assert_owner(ctx) {
            return Err(e);
        }
        proof {
            if old(self)@.coherent() {
                law_administration_keeps_coherence(old(self)@, old(self)@.with_mpc_contract(mpc_contract@));
            }
        }
        self.mpc_contract = mpc_contract;
        Ok(())
    }

    /// Whether `account` is an authorized relayer.
    pub fn is_tee_relayer(&self, account: String) -> (yes: bool)
        ensures
            yes == self@.relayers.contains(account@),
    {
        find_string(&self.tee_relayers, &account).is_some()
    }

    /// The identity key that a wallet address was registered for.
    pub fn get_path_for_wallet(&self, chain_address: String) -> (path: Option<DerivationPath>)
        requires
            self.wf(),
        ensures
            match path {
                Some(p) => self@.wallet_to_path.dom().contains(chain_address@)
                    && self@.wallet_to_path[chain_address@] == p@,
                None => !self@.wallet_to_path.dom().contains(chain_address@),
            },
    {
        match find_entry(&self.wallet_to_path, &chain_address) {
            Some(i) => {
                proof {
                    lemma_assoc_lookup(
                        entry_keys(self.wallet_to_path@),
                        path_values(self.wallet_to_path@),
                        i as int,
                    );
                }
                Some(self.wallet_to_path[i].1.clone())
            },
            None => None,
        }
    }

    /// The position of the permission set of `path`.
    pub fn path_position(&self, path: &String) -> (at: Option<usize>)
        requires
            self.wf(),
        ensures
            match at {
                Some(i) => i < self.permissions@.len() && self.permissions@[i as int].0@ == path@
                    && self@.has_path(path@) && self@.permissions[path@]
                    == self.permissions@[i as int].1@,
                None => !self@.has_path(path@),
            },
    {
        let at = find_entry(&self.permissions, path);
        proof {
            if let Some(i) = at {
                lemma_assoc_lookup(
                    entry_keys(self.permissions@),
                    permission_values(self.permissions@),
                    i as int,
                );
            }
        }
        at
    }
}

/// The models of a list of identity keys with one operation each.
pub open spec fn resolved_views(s: Seq<(String, AllowedOperation)>) -> Seq<
    (Seq<char>, OperationModel),
> {
    s.map_values(|e: (String, AllowedOperation)| (e.0@, e.1@))
}

impl PermissionContract {
    /// Checks an owner's signature under the scheme of the wallet.
    pub fn verify_user_signature(
        &self,
        wallet_type: &WalletType,
        public_key: &[u8],
        chain_address: &str,
        message: &[u8],
        signature: &[u8],
    ) -> (ok: bool)
        ensures
            ok == user_signature_valid(
                *wallet_type,
                public_key@,
                chain_address@,
                message@,
                signature@,
            ),
    {
        match wallet_type {
            WalletType::Near => verify_near_signature(public_key, message, signature),
            WalletType::Solana => verify_solana_signature(public_key, message, signature),
            WalletType::Evm => verify_evm_signature(chain_address, message, signature),
        }
    }

    /// Checks a supplied price against an operation: its timestamp, where
    /// it has one, must lie within a minute of the block time, before or
    /// after, and the price must satisfy the operation's trigger.
    pub fn validate_price_condition(
        &self,
        ctx: &CallContext,
        operation: &AllowedOperation,
        current_price: u128,
        timestamp: Option<u64>,
    ) -> (res: Result<(), PermissionError>)
        ensures
            res == match price_error(
                operation@.operation_type,
                current_price,
                timestamp,
                ctx.block_timestamp,
            ) {
                Some(e) => Err::<(), PermissionError>(e),
                None => Ok(()),
            },
    {
        if let Some(ts) = timestamp {
            let now = ctx.block_timestamp;
            if now > ts && now - ts > PRICE_FRESHNESS_NS {
                return Err(PermissionError::StalePrice);
            }
            if ts > now && ts - now > PRICE_FRESHNESS_NS {
                return Err(PermissionError::PriceAhead);
            }
        }
        match &operation.operation_type {
            AllowedOperationType::LimitOrder { trigger_price, condition, .. } => {
                match condition {
                    PriceCondition::Above => {
                        if current_price < *trigger_price {
                            return Err(PermissionError::LimitPriceBelowTrigger);
                        }
                    },
                    PriceCondition::Below => {
                        if current_price > *trigger_price {
                            return Err(PermissionError::LimitPriceAboveTrigger);
                        }
                    },
                }
            },
            AllowedOperationType::StopLoss { trigger_price, .. } => {
                if current_price > *trigger_price {
                    return Err(PermissionError::StopLossNotTriggered);
                }
            },
            AllowedOperationType::TakeProfit { trigger_price, .. } => {
                if current_price < *trigger_price {
                    return Err(PermissionError::TakeProfitNotTriggered);
                }
            },
            AllowedOperationType::Swap { .. } => {},
        }
        Ok(())
    }

    /// Records a wallet for `derivation_path` and consumes `nonce` for its
    /// address, without asking who calls or what was signed.
    pub fn record_wallet(
        &mut self,
        derivation_path: DerivationPath,
        wallet: RegisteredWallet,
        nonce: u64,
    )
        requires
            old(self).wf(),
        ensures
            final(self).wf(),
            final(self)@ == old(self)@.with_wallet(derivation_path@, wallet@, nonce),
            old(self)@.coherent() ==> final(self)@.coherent(),
    {
        proof {
            old(self).lemma_model_wf();
            if old(self)@.coherent() {
                law_registration_keeps_coherence(old(self)@, derivation_path@, wallet@, nonce);
            }
        }
        let address = wallet.chain_address.clone();
        insert_nonce(&mut self.used_nonces, wallet.chain_address.clone(), nonce);
        match self.path_position(&derivation_path) {
            Some(i) => {
                self.permissions[i].1.add_wallet(wallet);
                proof {
                    lemma_permissions_replaced(old(self).permissions@, self.permissions@, i as int);
                }
            },
            None => {
                let permissions = UserPermissions::new(wallet);
                proof {
                    lemma_assoc_push(
                        entry_keys(self.permissions@),
                        permission_values(self.permissions@),
                        derivation_path@,
                        permissions@,
                    );
                }
                self.permissions.push((derivation_path.clone(), permissions));
                assert(entry_keys(self.permissions@) =~= entry_keys(old(self).permissions@).push(
                    derivation_path@,
                ));
                assert(permission_values(self.permissions@) =~= permission_values(
                    old(self).permissions@,
                ).push(permissions@));
            },
        }
        match find_entry(&self.wallet_to_path, &address) {
            Some(j) => {
                proof {
                    lemma_assoc_update(
                        entry_keys(self.wallet_to_path@),
                        path_values(self.wallet_to_path@),
                        j as int,
                        derivation_path@,
                    );
                }
                self.wallet_to_path[j].1 = derivation_path;
                assert(entry_keys(self.wallet_to_path@) =~= entry_keys(old(self).wallet_to_path@));
                assert(path_values(self.wallet_to_path@) =~= path_values(
                    old(self).wallet_to_path@,
                ).update(j as int, derivation_path@));
            },
            None => {
                proof {
                    lemma_assoc_push(
                        entry_keys(self.wallet_to_path@),
                        path_values(self.wallet_to_path@),
                        address@,
                        derivation_path@,
                    );
                }
                self.wallet_to_path.push((address, derivation_path));
                assert(entry_keys(self.wallet_to_path@) =~= entry_keys(
                    old(self).wallet_to_path@,
                ).push(address@));
                assert(path_values(self.wallet_to_path@) =~= path_values(
                    old(self).wallet_to_path@,
                ).push(derivation_path@));
            },
        }
    }

    /// Registers a wallet whose signature was checked by the caller:
    /// `signature_ok` says whether it validated.
    pub fn register_verified_wallet(
        &mut self,
        ctx: &CallContext,
        derivation_path: DerivationPath,
        wallet: RegisteredWallet,
        message: &[u8],
        nonce: u64,
        signature_ok: bool,
    ) -> (res: Result<(), PermissionError>)
        requires
            old(self).wf(),
        ensures
            final(self).wf(),
            match old(self)@.registration_error(
                ctx.predecessor@,
                derivation_path@,
                wallet@.chain_address,
                message@,
                nonce,
                signature_ok,
            ) {
                Some(e) => res == Err::<(), PermissionError>(e) && *final(self) == *old(self),
                None => res is Ok && final(self)@ == old(self)@.with_wallet(
                    derivation_path@,
                    wallet@,
                    nonce,
                ),
            },
            old(self)@.coherent() ==> final(self)@.coherent(),
    {
        if let Err(e) = self.assert_tee_relayer(ctx) {
            return Err(e);
        }
        if find_nonce(&self.used_nonces, &wallet.chain_address, nonce).is_some() {
            return Err(PermissionError::NonceAlreadyUsed);
        }
        if !signature_ok {
            return Err(PermissionError::InvalidSignature);
        }
        let expected = registration_message(derivation_path.as_str(), nonce);
        if !bytes_equal(message, expected.as_str().as_bytes()) {
            return Err(PermissionError::MessageMismatch);
        }
        self.record_wallet(derivation_path, wallet, nonce);
        Ok(())
    }

    /// Registers a wallet for `derivation_path`. The wallet must have
    /// signed the canonical registration message, and the pair of its
    /// address and `nonce` must be unconsumed.
    pub fn register_wallet(
        &mut self,
        ctx: &CallContext,
        derivation_path: DerivationPath,
        wallet_type: WalletType,
        public_key: Vec<u8>,
        chain_address: String,
        signature: Vec<u8>,
        message: Vec<u8>,
        nonce: u64,
    ) -> (res: Result<(), PermissionError>)
        requires
            old(self).wf(),
        ensures
            final(self).wf(),
            match old(self)@.registration_error(
                ctx.predecessor@,
                derivation_path@,
                chain_address@,
                message@,
                nonce,
                user_signature_valid(
                    wallet_type,
                    public_key@,
                    chain_address@,
                    message@,
                    signature@,
                ),
            ) {
                Some(e) => res == Err::<(), PermissionError>(e) && *final(self) == *old(self),
                None => res is Ok && final(self)@ == old(self)@.with_wallet(
                    derivation_path@,
                    (WalletModel {
                        wallet_type,
                        public_key: public_key@,
                        chain_address: chain_address@,
                    }),
                    nonce,
                ),
            },
            old(self)@.coherent() ==> final(self)@.coherent(),
    {
        if let Err(e) = self.assert_tee_relayer(ctx) {
            return Err(e);
        }
        let signature_ok = self.verify_user_signature(
            &wallet_type,
            public_key.as_slice(),
            chain_address.as_str(),
            message.as_slice(),
            signature.as_slice(),
        );
        let wallet = RegisteredWallet { wallet_type, public_key, chain_address };
        self.register_verified_wallet(
            ctx,
            derivation_path,
            wallet,
            message.as_slice(),
            nonce,
            signature_ok,
        )
    }

    /// Checks that `signer_address` is a registered wallet of
    /// `derivation_path` and that its signature over `message` validates.
    pub fn verify_owner_proof(
        &self,
        ctx: &CallContext,
        derivation_path: &String,
        signer_address: &String,
        message: &[u8],
        signature: &[u8],
    ) -> (res: Result<(), PermissionError>)
        requires
            self.wf(),
        ensures
            res == match self@.proof_error(
                ctx.predecessor@,
                derivation_path@,
                signer_address@,
                message@,
                signature@,
            ) {
                Some(e) => Err::<(), PermissionError>(e),
                None => Ok(()),
            },
    {
        if let Err(e) = self.assert_tee_relayer(ctx) {
            return Err(e);
        }
        let i = match self.path_position(derivation_path) {
            Some(i) => i,
            None => {
                return Err(PermissionError::UnknownPath);
            },
        };
        let j = match self.permissions[i].1.wallet_position(signer_address) {
            Some(j) => j,
            None => {
                return Err(PermissionError::SignerNotAuthorized);
            },
        };
        let wallet = &self.permissions[i].1.owner_wallets[j];
        if self.verify_user_signature(
            &wallet.wallet_type,
            wallet.public_key.as_slice(),
            signer_address.as_str(),
            message,
            signature,
        ) {
            Ok(())
        } else {
            Err(PermissionError::InvalidSignature)
        }
    }

    /// Puts a new operation into the allowlist of `derivation_path` and
    /// into the active index, and returns its identifier.
    pub fn insert_operation(
        &mut self,
        derivation_path: DerivationPath,
        operation: AllowedOperationInput,
        now: u64,
    ) -> (res: Result<String, PermissionError>)
        requires
            old(self).wf(),
        ensures
            final(self).wf(),
            match old(self)@.insertion_error(derivation_path@) {
                Some(e) => res == Err::<String, PermissionError>(e) && *final(self) == *old(self),
                None => res is Ok && res.unwrap()@ == old(self)@.next_operation_id(
                    derivation_path@,
                ) && final(self)@ == old(self)@.with_operation(derivation_path@, operation@, now),
            },
            old(self)@.coherent() ==> final(self)@.coherent(),
    {
        proof {
            old(self).lemma_model_wf();
            if old(self)@.coherent() && old(self)@.insertion_error(derivation_path@) is None {
                law_approval_keeps_coherence(old(self)@, derivation_path@, operation@, now);
            }
        }
        let i = match self.path_position(&derivation_path) {
            Some(i) => i,
            None => {
                return Err(PermissionError::UnknownPath);
            },
        };
        let nonce = self.permissions[i].1.next_nonce;
        if nonce == u64::MAX {
            return Err(PermissionError::NonceExhausted);
        }
        let operation_id = make_operation_id(derivation_path.as_str(), nonce);
        let allowed = AllowedOperation {
            operation_id: operation_id.clone(),
            derivation_path: derivation_path.clone(),
            operation_type: operation.operation_type,
            destination_address: operation.destination_address,
            destination_chain: operation.destination_chain,
            slippage_bps: operation.slippage_bps,
            expires_at: operation.expires_at,
            executed: false,
            nonce,
            created_at: now,
        };
        assert(allowed@ == old(self)@.new_operation(derivation_path@, operation@, now));
        self.permissions[i].1.put_operation(allowed);
        self.permissions[i].1.next_nonce = nonce + 1;
        proof {
            lemma_permissions_replaced(old(self).permissions@, self.permissions@, i as int);
        }
        insert_pair(&mut self.active_operations, derivation_path, operation_id.clone());
        Ok(operation_id)
    }

    /// Approves an operation for `derivation_path`. A registered wallet of
    /// that identity key must have signed `message`.
    pub fn add_allowed_operation(
        &mut self,
        ctx: &CallContext,
        derivation_path: DerivationPath,
        operation: AllowedOperationInput,
        signature: Vec<u8>,
        message: Vec<u8>,
        signer_address: String,
    ) -> (res: Result<String, PermissionError>)
        requires
            old(self).wf(),
        ensures
            final(self).wf(),
            match old(self)@.proof_error(
                ctx.predecessor@,
                derivation_path@,
                signer_address@,
                message@,
                signature@,
            ) {
                Some(e) => res == Err::<String, PermissionError>(e) && *final(self) == *old(self),
                None => match old(self)@.insertion_error(derivation_path@) {
                    Some(e) => res == Err::<String, PermissionError>(e) && *final(self) == *old(
                        self,
                    ),
                    None => res is Ok && res.unwrap()@ == old(self)@.next_operation_id(
                        derivation_path@,
                    ) && final(self)@ == old(self)@.with_operation(
                        derivation_path@,
                        operation@,
                        ctx.block_timestamp,
                    ),
                },
            },
            old(self)@.coherent() ==> final(self)@.coherent(),
    {
        if let Err(e) = self.verify_owner_proof(
            ctx,
            &derivation_path,
            &signer_address,
            message.as_slice(),
            signature.as_slice(),
        ) {
            return Err(e);
        }
        self.insert_operation(derivation_path, operation, ctx.block_timestamp)
    }

    /// Takes an operation out of the allowlist of `derivation_path` and out
    /// of the active index; nothing happens where it is in neither.
    pub fn delete_operation(&mut self, derivation_path: &String, operation_id: &String) -> (res:
        Result<(), PermissionError>)
        requires
            old(self).wf(),
        ensures
            final(self).wf(),
            if old(self)@.has_path(derivation_path@) {
                res is Ok && final(self)@ == old(self)@.without_operation(
                    derivation_path@,
                    operation_id@,
                )
            } else {
                res == Err::<(), PermissionError>(PermissionError::UnknownPath) && *final(self)
                    == *old(self)
            },
            old(self)@.coherent() ==> final(self)@.coherent(),
    {
        proof {
            old(self).lemma_model_wf();
            if old(self)@.coherent() && old(self)@.has_path(derivation_path@) {
                law_revocation_keeps_coherence(old(self)@, derivation_path@, operation_id@);
            }
        }
        let i = match self.path_position(derivation_path) {
            Some(i) => i,
            None => {
                return Err(PermissionError::UnknownPath);
            },
        };
        self.permissions[i].1.remove_operation(operation_id);
        proof {
            lemma_permissions_replaced(old(self).permissions@, self.permissions@, i as int);
        }
        remove_pair(&mut self.active_operations, derivation_path, operation_id);
        Ok(())
    }

    /// Revokes an operation of `derivation_path`. A registered wallet of
    /// that identity key must have signed `message`. Revoking an operation
    /// that is not there succeeds and changes nothing.
    pub fn remove_allowed_operation(
        &mut self,
        ctx: &CallContext,
        derivation_path: DerivationPath,
        operation_id: String,
        signature: Vec<u8>,
        message: Vec<u8>,
        signer_address: String,
    ) -> (res: Result<(), PermissionError>)
        requires
            old(self).wf(),
        ensures
            final(self).wf(),
            match old(self)@.proof_error(
                ctx.predecessor@,
                derivation_path@,
                signer_address@,
                message@,
                signature@,
            ) {
                Some(e) => res == Err::<(), PermissionError>(e) && *final(self) == *old(self),
                None => res is Ok && final(self)@ == old(self)@.without_operation(
                    derivation_path@,
                    operation_id@,
                ),
            },
            old(self)@.coherent() ==> final(self)@.coherent(),
    {
        if let Err(e) = self.verify_owner_proof(
            ctx,
            &derivation_path,
            &signer_address,
            message.as_slice(),
            signature.as_slice(),
        ) {
            return Err(e);
        }
        self.delete_operation(&derivation_path, &operation_id)
    }

    /// Reserves an operation for its one execution and returns the request
    /// for the external signer. The reservation is made before the request
    /// leaves, so that a second call for the same operation is turned down.
    pub fn sign_allowed(
        &mut self,
        ctx: &CallContext,
        derivation_path: DerivationPath,
        operation_id: String,
        payload: Vec<u8>,
        key_type: String,
        tee_price: Option<u128>,
        tee_timestamp: Option<u64>,
    ) -> (res: Result<SignRequest, PermissionError>)
        requires
            old(self).wf(),
        ensures
            final(self).wf(),
            match old(self)@.signing_error(
                ctx.predecessor@,
                ctx.block_timestamp,
                derivation_path@,
                operation_id@,
                key_type@,
                tee_price,
                tee_timestamp,
            ) {
                Some(e) => res == Err::<SignRequest, PermissionError>(e) && *final(self) == *old(
                    self,
                ),
                None => res is Ok && res.unwrap()@ == sign_request(
                    derivation_path@,
                    payload@,
                    key_type@,
                ) && final(self)@ == old(self)@.reserved(derivation_path@, operation_id@),
            },
            old(self)@.coherent() ==> final(self)@.coherent(),
    {
        proof {
            old(self).lemma_model_wf();
            if old(self)@.coherent() && old(self)@.has_path(derivation_path@) {
                law_reservation_keeps_coherence(old(self)@, derivation_path@, operation_id@);
            }
        }
        if let Err(e) = self.assert_tee_relayer(ctx) {
            return Err(e);
        }
        let i = match self.path_position(&derivation_path) {
            Some(i) => i,
            None => {
                return Err(PermissionError::UnknownPath);
            },
        };
        let j = match self.permissions[i].1.operation_position(&operation_id) {
            Some(j) => j,
            None => {
                return Err(PermissionError::UnknownOperation);
            },
        };
        let operation = &self.permissions[i].1.allowed_operations[j];
        if operation.executed {
            return Err(PermissionError::AlreadyExecuted);
        }
        if let Some(expires) = operation.expires_at {
            if ctx.block_timestamp >= expires {
                return Err(PermissionError::Expired);
            }
        }
        if let Some(price) = tee_price {
            if let Err(e) = self.validate_price_condition(ctx, operation, price, tee_timestamp) {
                return Err(e);
            }
        }
        let request = match build_sign_request(
            derivation_path.clone(),
            payload.as_slice(),
            &key_type,
        ) {
            Ok(request) => request,
            Err(e) => {
                return Err(e);
            },
        };
        self.permissions[i].1.set_executed(&operation_id, true);
        proof {
            lemma_permissions_replaced(old(self).permissions@, self.permissions@, i as int);
        }
        remove_pair(&mut self.active_operations, &derivation_path, &operation_id);
        Ok(request)
    }

    /// Takes the signer's answer. A signature is handed on. On a failure
    /// the reservation is released: the operation is not executed and in
    /// the active index again, so that it can be tried once more.
    pub fn on_mpc_sign_complete(
        &mut self,
        derivation_path: DerivationPath,
        operation_id: String,
        outcome: Option<Vec<u8>>,
    ) -> (res: Result<Vec<u8>, PermissionError>)
        requires
            old(self).wf(),
        ensures
            final(self).wf(),
            match outcome {
                Some(signature) => res == Ok::<Vec<u8>, PermissionError>(signature) && *final(self)
                    == *old(self),
                None => res == Err::<Vec<u8>, PermissionError>(PermissionError::SignerFailed)
                    && final(self)@ == old(self)@.released(derivation_path@, operation_id@),
            },
            old(self)@.coherent() ==> final(self)@.coherent(),
    {
        proof {
            old(self).lemma_model_wf();
            if old(self)@.coherent() {
                law_release_keeps_coherence(old(self)@, derivation_path@, operation_id@);
            }
        }
        match outcome {
            Some(signature) => Ok(signature),
            None => {
                if let Some(i) = self.path_position(&derivation_path) {
                    if self.permissions[i].1.operation_position(&operation_id).is_some() {
                        self.permissions[i].1.set_executed(&operation_id, false);
                        proof {
                            lemma_permissions_replaced(
                                old(self).permissions@,
                                self.permissions@,
                                i as int,
                            );
                        }
                        insert_pair(&mut self.active_operations, derivation_path, operation_id);
                    }
                }
                Err(PermissionError::SignerFailed)
            },
        }
    }

    /// One operation of an identity key.
    pub fn get_operation(&self, derivation_path: DerivationPath, operation_id: String) -> (found:
        Option<AllowedOperation>)
        requires
            self.wf(),
        ensures
            match found {
                Some(operation) => self@.has_operation(derivation_path@, operation_id@)
                    && operation@ == self@.operation(derivation_path@, operation_id@),
                None => !self@.has_operation(derivation_path@, operation_id@),
            },
            self@.coherent() && found is Some ==> found.unwrap().derivation_path@
                == derivation_path@,
    {
        proof {
            if self@.coherent() && self@.has_operation(derivation_path@, operation_id@) {
                law_operation_names_its_key(self@, derivation_path@, operation_id@);
            }
        }
        match self.path_position(&derivation_path) {
            Some(i) => match self.permissions[i].1.operation_position(&operation_id) {
                Some(j) => Some(self.permissions[i].1.allowed_operations[j].clone()),
                None => None,
            },
            None => None,
        }
    }

    /// All operations of an identity key, oldest first; none for an unknown
    /// key.
    pub fn get_operations(&self, derivation_path: DerivationPath) -> (list: Vec<AllowedOperation>)
        requires
            self.wf(),
        ensures
            operation_views(list@) == if self@.has_path(derivation_path@) {
                self@.permissions[derivation_path@].operations
            } else {
                Seq::empty()
            },
            self@.coherent() ==> forall|i: int|
                0 <= i < list@.len() ==> (#[trigger] list@[i]).derivation_path@
                    == derivation_path@,
    {
        match self.path_position(&derivation_path) {
            Some(i) => {
                let list = clone_operations(&self.permissions[i].1.allowed_operations);
                proof {
                    if self@.coherent() {
                        assert forall|k: int| 0 <= k < list@.len() implies (
                        #[trigger] list@[k]).derivation_path@ == derivation_path@ by {
                            assert(operation_views(list@)[k] == list@[k]@);
                            assert(self@.permissions[derivation_path@].operations[k]
                                == list@[k]@);
                        }
                    }
                }
                list
            },
            None => {
                let list: Vec<AllowedOperation> = Vec::new();
                assert(operation_views(list@) =~= Seq::empty());
                list
            },
        }
    }

    /// Whether an operation can be executed now: it exists, is not
    /// executed, and its expiry has not passed.
    pub fn is_operation_allowed(
        &self,
        ctx: &CallContext,
        derivation_path: DerivationPath,
        operation_id: String,
    ) -> (allowed: bool)
        requires
            self.wf(),
        ensures
            allowed == self@.is_allowed(ctx.block_timestamp, derivation_path@, operation_id@),
    {
        if let Some(i) = self.path_position(&derivation_path) {
            if let Some(j) = self.permissions[i].1.operation_position(&operation_id) {
                let operation = &self.permissions[i].1.allowed_operations[j];
                if operation.executed {
                    return false;
                }
                if let Some(expires) = operation.expires_at {
                    if ctx.block_timestamp >= expires {
                        return false;
                    }
                }
                return true;
            }
        }
        false
    }

    /// A page of the active index with the operation behind each entry: at
    /// most `limit` entries from entry `from_index` on, in the order in
    /// which they were entered. An entry whose operation is gone is passed
    /// over.
    pub fn get_active_operations(&self, from_index: u64, limit: u64) -> (page: Vec<
        (DerivationPath, AllowedOperation),
    >)
        requires
            self.wf(),
        ensures
            resolved_views(page@) == self@.resolve(self@.active_page(from_index, limit)),
            self@.coherent() ==> forall|i: int|
                0 <= i < page@.len() ==> (#[trigger] page@[i]).1.derivation_path@ == page@[i].0@,
    {
        proof {
            if self@.coherent() {
                law_resolved_operations_name_their_key(
                    self@,
                    self@.active_page(from_index, limit),
                );
            }
        }
        let mut page: Vec<(DerivationPath, AllowedOperation)> = Vec::new();
        let len = self.active_operations.len();
        assert(resolved_views(page@) =~= Seq::empty());
        if from_index >= len as u64 {
            return page;
        }
        let start: usize = from_index as usize;
        let room: usize = len - start;
        let end: usize = if limit < room as u64 {
            start + limit as usize
        } else {
            len
        };
        assert(end == ContractModel::page_end(self@.active.len(), from_index, limit));
        let ghost entries = self@.active;
        let mut k: usize = start;
        assert(entries.subrange(start as int, k as int) =~= Seq::empty());
        while k < end
            invariant
                self.wf(),
                start <= k <= end <= len,
                len == self.active_operations@.len(),
                entries == self@.active,
                resolved_views(page@) == self@.resolve(entries.subrange(start as int, k as int)),
            decreases end - k,
        {
            let path = &self.active_operations[k].0;
            let id = &self.active_operations[k].1;
            proof {
                let next = entries.subrange(start as int, k as int + 1);
                assert(next.drop_last() =~= entries.subrange(start as int, k as int));
                assert(next.last() == (path@, id@));
            }
            if let Some(i) = self.path_position(path) {
                if let Some(j) = self.permissions[i].1.operation_position(id) {
                    let operation = self.permissions[i].1.allowed_operations[j].clone();
                    page.push((path.clone(), operation));
                    assert(resolved_views(page@) =~= self@.resolve(
                        entries.subrange(start as int, k as int),
                    ).push((path@, operation@)));
                }
            }
            k += 1;
        }
        proof {
            if self@.coherent() {
                assert forall|i: int| 0 <= i < page@.len() implies (
                #[trigger] page@[i]).1.derivation_path@ == page@[i].0@ by {
                    assert(resolved_views(page@)[i] == (page@[i].0@, page@[i].1@));
                }
            }
        }
        page
    }
}

} // verus!
