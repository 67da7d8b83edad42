//! The engine as mathematics: its state as sets, maps and sequences, the
//! checks that turn a request down, and the state that an accepted request
//! leaves behind.

use vstd::prelude::*;
use vstd::utf8::encode_utf8;
use crate::error::PermissionError;
use crate::hexcode::hex_encoded;
use crate::keyed::{seq_insert, seq_remove};
use crate::signature::{evm_signature_valid, near_signature_valid, solana_signature_valid};
use crate::text::{operation_id_text, registration_text};
use crate::types::{
    OperationInputModel,
    OperationModel,
    OperationTypeModel,
    PriceCondition,
    WalletModel,
    WalletType,
};

verus! {

/// How far the timestamp of a price may lie from the block time, on either
/// side, in nanoseconds: one minute.
pub const PRICE_FRESHNESS_NS: u64 = 60_000_000_000;

/// The domain selector of the signer for EdDSA.
pub const DOMAIN_EDDSA: u8 = 1;

/// The domain selector of the signer for ECDSA.
pub const DOMAIN_ECDSA: u8 = 0;

/// Whether `signature` authenticates `message` for a wallet of the given
/// scheme. The Ed25519 schemes go by the public key, the EVM scheme by the
/// address.
pub open spec fn user_signature_valid(
    wallet_type: WalletType,
    public_key: Seq<u8>,
    chain_address: Seq<char>,
    message: Seq<u8>,
    signature: Seq<u8>,
) -> bool {
    match wallet_type {
        WalletType::Near => near_signature_valid(public_key, message, signature),
        WalletType::Solana => solana_signature_valid(public_key, message, signature),
        WalletType::Evm => evm_signature_valid(encode_utf8(chain_address), message, signature),
    }
}

/// Why a price does not satisfy the trigger of an operation, if it does not.
/// A swap has no trigger.
pub open spec fn trigger_error(kind: OperationTypeModel, price: u128) -> Option<PermissionError> {
    match kind {
        OperationTypeModel::Swap { .. } => None,
        OperationTypeModel::LimitOrder { trigger_price, condition, .. } => match condition {
            PriceCondition::Above => if price < trigger_price {
                Some(PermissionError::LimitPriceBelowTrigger)
            } else {
                None
            },
            PriceCondition::Below => if price > trigger_price {
                Some(PermissionError::LimitPriceAboveTrigger)
            } else {
                None
            },
        },
        OperationTypeModel::StopLoss { trigger_price, .. } => if price > trigger_price {
            Some(PermissionError::StopLossNotTriggered)
        } else {
            None
        },
        OperationTypeModel::TakeProfit { trigger_price, .. } => if price < trigger_price {
            Some(PermissionError::TakeProfitNotTriggered)
        } else {
            None
        },
    }
}

/// A price timestamp that lies more than a minute before `now`.
pub open spec fn is_stale(timestamp: Option<u64>, now: u64) -> bool {
    match timestamp {
        Some(t) => now > t && now - t > PRICE_FRESHNESS_NS,
        None => false,
    }
}

/// A price timestamp that lies more than a minute after `now`.
pub open spec fn is_ahead(timestamp: Option<u64>, now: u64) -> bool {
    match timestamp {
        Some(t) => t > now && t - now > PRICE_FRESHNESS_NS,
        None => false,
    }
}

/// Whether a price timestamp lies within the freshness window: no more
/// than a minute from `now`, on either side. A price without a timestamp
/// counts as fresh.
pub open spec fn is_fresh(timestamp: Option<u64>, now: u64) -> bool {
    match timestamp {
        Some(t) => now - t <= PRICE_FRESHNESS_NS && t - now <= PRICE_FRESHNESS_NS,
        None => true,
    }
}

/// Why the timestamp of a price is not fresh, if it is not.
pub open spec fn freshness_error(timestamp: Option<u64>, now: u64) -> Option<PermissionError> {
    if is_stale(timestamp, now) {
        Some(PermissionError::StalePrice)
    } else if is_ahead(timestamp, now) {
        Some(PermissionError::PriceAhead)
    } else {
        None
    }
}

/// Why a supplied price does not let an operation run, if it does not:
/// the freshness of its timestamp first, then the trigger.
pub open spec fn price_error(
    kind: OperationTypeModel,
    price: u128,
    timestamp: Option<u64>,
    now: u64,
) -> Option<PermissionError> {
    match freshness_error(timestamp, now) {
        Some(e) => Some(e),
        None => trigger_error(kind, price),
    }
}

/// The signer's domain selector for a key type, if the key type is one of
/// the two recognized literals.
pub open spec fn key_domain(key_type: Seq<char>) -> Option<u8> {
    if key_type == "Eddsa"@ {
        Some(DOMAIN_EDDSA)
    } else if key_type == "Ecdsa"@ {
        Some(DOMAIN_ECDSA)
    } else {
        None
    }
}

/// Model of a payload: hexadecimal text under exactly one of two tags.
pub struct PayloadModel {
    pub eddsa: Option<Seq<char>>,
    pub ecdsa: Option<Seq<char>>,
}

/// Model of a request to the external signer.
pub struct SignRequestModel {
    pub payload_v2: PayloadModel,
    pub path: Seq<char>,
    pub domain_id: u8,
}

/// The request that asks the signer to sign `payload` with the key of
/// `path`, for a recognized key type.
pub open spec fn sign_request(path: Seq<char>, payload: Seq<u8>, key_type: Seq<char>) -> SignRequestModel {
    SignRequestModel {
        payload_v2: if key_type == "Eddsa"@ {
            PayloadModel { eddsa: Some(hex_encoded(payload)), ecdsa: None }
        } else {
            PayloadModel { eddsa: None, ecdsa: Some(hex_encoded(payload)) }
        },
        path,
        domain_id: if key_type == "Eddsa"@ {
            DOMAIN_EDDSA
        } else {
            DOMAIN_ECDSA
        },
    }
}

/// Whether an operation's expiry has passed at `now`.
pub open spec fn is_expired(operation: OperationModel, now: u64) -> bool {
    match operation.expires_at {
        Some(t) => now >= t,
        None => false,
    }
}

/// The permission set of one identity key.
pub struct PermissionsModel {
    /// The wallets that may manage the allowlist, oldest first.
    pub wallets: Seq<WalletModel>,
    /// The allowlist, oldest entry first.
    pub operations: Seq<OperationModel>,
    /// The nonce of the next operation id.
    pub next_nonce: u64,
}

impl PermissionsModel {
    /// The addresses of the wallets, in order.
    pub open spec fn addresses(self) -> Seq<Seq<char>> {
        self.wallets.map_values(|w: WalletModel| w.chain_address)
    }

    /// The identifiers of the operations, in order.
    pub open spec fn ids(self) -> Seq<Seq<char>> {
        self.operations.map_values(|o: OperationModel| o.operation_id)
    }

    /// No address and no operation id occurs twice.
    pub open spec fn wf(self) -> bool {
        &&& self.addresses().no_duplicates()
        &&& self.ids().no_duplicates()
    }

    pub open spec fn has_wallet(self, address: Seq<char>) -> bool {
        self.addresses().contains(address)
    }

    /// The wallet with the given address, where there is one.
    pub open spec fn wallet(self, address: Seq<char>) -> WalletModel {
        self.wallets[self.addresses().index_of(address)]
    }

    pub open spec fn has_operation(self, id: Seq<char>) -> bool {
        self.ids().contains(id)
    }

    /// The operation with the given identifier, where there is one.
    pub open spec fn operation(self, id: Seq<char>) -> OperationModel {
        self.operations[self.ids().index_of(id)]
    }

    /// The set with `wallet` added, unless its address is registered.
    pub open spec fn with_wallet(self, wallet: WalletModel) -> PermissionsModel {
        if self.has_wallet(wallet.chain_address) {
            self
        } else {
            PermissionsModel { wallets: self.wallets.push(wallet), ..self }
        }
    }

    /// The set with `operation` in the allowlist: in the place of the entry
    /// with its identifier, or at the end.
    pub open spec fn with_operation(self, operation: OperationModel) -> PermissionsModel {
        if self.has_operation(operation.operation_id) {
            PermissionsModel {
                operations: self.operations.update(
                    self.ids().index_of(operation.operation_id),
                    operation,
                ),
                ..self
            }
        } else {
            PermissionsModel { operations: self.operations.push(operation), ..self }
        }
    }

    /// The set without the operation `id`.
    pub open spec fn without_operation(self, id: Seq<char>) -> PermissionsModel {
        if self.has_operation(id) {
            PermissionsModel {
                operations: self.operations.remove(self.ids().index_of(id)),
                ..self
            }
        } else {
            self
        }
    }

    /// The set with the executed flag of operation `id` set to `flag`.
    pub open spec fn with_executed(self, id: Seq<char>, flag: bool) -> PermissionsModel {
        if self.has_operation(id) {
            self.with_operation(OperationModel { executed: flag, ..self.operation(id) })
        } else {
            self
        }
    }
}

/// The state of the engine.
pub struct ContractModel {
    /// The administrator.
    pub owner: Seq<char>,
    /// The account of the external signer.
    pub mpc_contract: Seq<char>,
    /// The relayers that may submit requests.
    pub relayers: Set<Seq<char>>,
    /// The permission set of each identity key.
    pub permissions: Map<Seq<char>, PermissionsModel>,
    /// The identity key that each wallet address was last registered for.
    pub wallet_to_path: Map<Seq<char>, Seq<char>>,
    /// The operations that wait for execution, as pairs of identity key and
    /// operation id, in the order in which they were entered.
    pub active: Seq<(Seq<char>, Seq<char>)>,
    /// The pairs of address and nonce that a registration has consumed.
    pub used_nonces: Set<(Seq<char>, u64)>,
}

impl ContractModel {
    /// The state of a new engine: nobody is registered, nothing is allowed.
    pub open spec fn initial(owner: Seq<char>, mpc_contract: Seq<char>) -> ContractModel {
        ContractModel {
            owner,
            mpc_contract,
            relayers: Set::empty(),
            permissions: Map::empty(),
            wallet_to_path: Map::empty(),
            active: Seq::empty(),
            used_nonces: Set::empty(),
        }
    }

    /// No entry of the active index occurs twice, and every permission set
    /// is well formed.
    pub open spec fn wf(self) -> bool {
        &&& self.active.no_duplicates()
        &&& forall|path: Seq<char>| #[trigger]
            self.permissions.dom().contains(path) ==> self.permissions[path].wf()
    }

    /// Every operation stands in the permission set of the identity key it
    /// names, bears the identifier that its nonce gives, and has a nonce
    /// below the key's next nonce.
    pub open spec fn operations_in_order(self) -> bool {
        forall|path: Seq<char>, i: int|
            self.has_path(path) && 0 <= i < self.permissions[path].operations.len() ==> {
                let operation = #[trigger] self.permissions[path].operations[i];
                &&& operation.derivation_path == path
                &&& operation.operation_id == operation_id_text(path, operation.nonce)
                &&& operation.nonce < self.permissions[path].next_nonce
            }
    }

    /// What holds of every state that the engine reaches from a new one:
    /// the active index is exact, and the operations are in order.
    pub open spec fn coherent(self) -> bool {
        &&& self.index_consistent()
        &&& self.operations_in_order()
    }

    /// The active index holds exactly the operations that exist and are not
    /// executed.
    pub open spec fn index_consistent(self) -> bool {
        forall|path: Seq<char>, id: Seq<char>| #[trigger]
            self.active.contains((path, id)) <==> self.has_operation(path, id)
                && !self.operation(path, id).executed
    }

    pub open spec fn has_path(self, path: Seq<char>) -> bool {
        self.permissions.dom().contains(path)
    }

    pub open spec fn has_operation(self, path: Seq<char>, id: Seq<char>) -> bool {
        self.has_path(path) && self.permissions[path].has_operation(id)
    }

    /// The operation `id` of `path`, where there is one.
    pub open spec fn operation(self, path: Seq<char>, id: Seq<char>) -> OperationModel {
        self.permissions[path].operation(id)
    }

    /// Whether the operation can be executed at `now`: it exists, is not
    /// executed and has not expired.
    pub open spec fn is_allowed(self, now: u64, path: Seq<char>, id: Seq<char>) -> bool {
        &&& self.has_operation(path, id)
        &&& !self.operation(path, id).executed
        &&& !is_expired(self.operation(path, id), now)
    }

    /// Why `caller` may not administer the engine, if it may not.
    pub open spec fn owner_error(self, caller: Seq<char>) -> Option<PermissionError> {
        if caller == self.owner {
            None
        } else {
            Some(PermissionError::NotOwner)
        }
    }

    /// Why `caller` may not submit requests, if it may not.
    pub open spec fn relayer_error(self, caller: Seq<char>) -> Option<PermissionError> {
        if self.relayers.contains(caller) {
            None
        } else {
            Some(PermissionError::NotRelayer)
        }
    }

    pub open spec fn with_relayer(self, account: Seq<char>) -> ContractModel {
        ContractModel { relayers: self.relayers.insert(account), ..self }
    }

    pub open spec fn without_relayer(self, account: Seq<char>) -> ContractModel {
        ContractModel { relayers: self.relayers.remove(account), ..self }
    }

    pub open spec fn with_mpc_contract(self, account: Seq<char>) -> ContractModel {
        ContractModel { mpc_contract: account, ..self }
    }

    /// Why a registration is turned down, if it is: the relayer, the nonce,
    /// the signature and the signed text are checked in this order.
    pub open spec fn registration_error(
        self,
        caller: Seq<char>,
        path: Seq<char>,
        address: Seq<char>,
        message: Seq<u8>,
        nonce: u64,
        signature_ok: bool,
    ) -> Option<PermissionError> {
        if !self.relayers.contains(caller) {
            Some(PermissionError::NotRelayer)
        } else if self.used_nonces.contains((address, nonce)) {
            Some(PermissionError::NonceAlreadyUsed)
        } else if !signature_ok {
            Some(PermissionError::InvalidSignature)
        } else if message != encode_utf8(registration_text(path, nonce)) {
            Some(PermissionError::MessageMismatch)
        } else {
            None
        }
    }

    /// The state after `wallet` was registered for `path` under `nonce`: the
    /// nonce is consumed, the wallet joins the permission set of `path`
    /// (a new one where `path` had none, with 1 as its next nonce) unless
    /// its address is there already, and the address leads to `path`.
    pub open spec fn with_wallet(self, path: Seq<char>, wallet: WalletModel, nonce: u64) -> ContractModel {
        let permissions = if self.has_path(path) {
            self.permissions[path].with_wallet(wallet)
        } else {
            PermissionsModel { wallets: seq![wallet], operations: Seq::empty(), next_nonce: 1 }
        };
        ContractModel {
            permissions: self.permissions.insert(path, permissions),
            wallet_to_path: self.wallet_to_path.insert(wallet.chain_address, path),
            used_nonces: self.used_nonces.insert((wallet.chain_address, nonce)),
            ..self
        }
    }

    /// Why `signer` may not change the allowlist of `path` through
    /// `caller`, before its signature is looked at.
    pub open spec fn signer_error(
        self,
        caller: Seq<char>,
        path: Seq<char>,
        signer: Seq<char>,
    ) -> Option<PermissionError> {
        if !self.relayers.contains(caller) {
            Some(PermissionError::NotRelayer)
        } else if !self.has_path(path) {
            Some(PermissionError::UnknownPath)
        } else if !self.permissions[path].has_wallet(signer) {
            Some(PermissionError::SignerNotAuthorized)
        } else {
            None
        }
    }

    /// Why a change of the allowlist of `path` is not authorized, if it is
    /// not: the signer must be a registered wallet of `path`, and the
    /// signature must validate under that wallet's scheme and key.
    pub open spec fn proof_error(
        self,
        caller: Seq<char>,
        path: Seq<char>,
        signer: Seq<char>,
        message: Seq<u8>,
        signature: Seq<u8>,
    ) -> Option<PermissionError> {
        match self.signer_error(caller, path, signer) {
            Some(e) => Some(e),
            None => {
                let wallet = self.permissions[path].wallet(signer);
                if user_signature_valid(
                    wallet.wallet_type,
                    wallet.public_key,
                    signer,
                    message,
                    signature,
                ) {
                    None
                } else {
                    Some(PermissionError::InvalidSignature)
                }
            },
        }
    }

    /// Why `path` cannot take a new operation, if it cannot.
    pub open spec fn insertion_error(self, path: Seq<char>) -> Option<PermissionError> {
        if !self.has_path(path) {
            Some(PermissionError::UnknownPath)
        } else if self.permissions[path].next_nonce == u64::MAX {
            Some(PermissionError::NonceExhausted)
        } else {
            None
        }
    }

    /// The identifier that the next operation of `path` gets.
    pub open spec fn next_operation_id(self, path: Seq<char>) -> Seq<char> {
        operation_id_text(path, self.permissions[path].next_nonce)
    }

    /// The operation that `input` becomes when it is approved for `path` at
    /// `now`.
    pub open spec fn new_operation(
        self,
        path: Seq<char>,
        input: OperationInputModel,
        now: u64,
    ) -> OperationModel {
        OperationModel {
            operation_id: self.next_operation_id(path),
            derivation_path: path,
            operation_type: input.operation_type,
            destination_address: input.destination_address,
            destination_chain: input.destination_chain,
            slippage_bps: input.slippage_bps,
            expires_at: input.expires_at,
            executed: false,
            nonce: self.permissions[path].next_nonce,
            created_at: now,
        }
    }

    /// The state after `input` was approved for `path` at `now`: the new
    /// operation is in the allowlist and in the active index, and the next
    /// nonce of `path` is one higher.
    pub open spec fn with_operation(
        self,
        path: Seq<char>,
        input: OperationInputModel,
        now: u64,
    ) -> ContractModel {
        let old_permissions = self.permissions[path];
        let operation = self.new_operation(path, input, now);
        let permissions = PermissionsModel {
            next_nonce: (old_permissions.next_nonce + 1) as u64,
            ..old_permissions.with_operation(operation)
        };
        ContractModel {
            permissions: self.permissions.insert(path, permissions),
            active: seq_insert(self.active, (path, operation.operation_id)),
            ..self
        }
    }

    /// The state after operation `id` of `path` was revoked: it is neither
    /// in the allowlist nor in the active index.
    pub open spec fn without_operation(self, path: Seq<char>, id: Seq<char>) -> ContractModel {
        ContractModel {
            permissions: self.permissions.insert(path, self.permissions[path].without_operation(id)),
            active: seq_remove(self.active, (path, id)),
            ..self
        }
    }

    /// Why a request to sign is turned down, if it is. The checks come in
    /// this order: the relayer, the identity key, the operation, its
    /// executed flag, its expiry, the price where one is supplied, the key
    /// type.
    pub open spec fn signing_error(
        self,
        caller: Seq<char>,
        now: u64,
        path: Seq<char>,
        id: Seq<char>,
        key_type: Seq<char>,
        price: Option<u128>,
        timestamp: Option<u64>,
    ) -> Option<PermissionError> {
        if !self.relayers.contains(caller) {
            Some(PermissionError::NotRelayer)
        } else if !self.has_path(path) {
            Some(PermissionError::UnknownPath)
        } else if !self.permissions[path].has_operation(id) {
            Some(PermissionError::UnknownOperation)
        } else if self.operation(path, id).executed {
            Some(PermissionError::AlreadyExecuted)
        } else if is_expired(self.operation(path, id), now) {
            Some(PermissionError::Expired)
        } else if price is Some && price_error(
            self.operation(path, id).operation_type,
            price.unwrap(),
            timestamp,
            now,
        ) is Some {
            price_error(self.operation(path, id).operation_type, price.unwrap(), timestamp, now)
        } else if key_domain(key_type) is None {
            Some(PermissionError::InvalidKeyType)
        } else {
            None
        }
    }

    /// The state in which operation `id` of `path` is reserved for one
    /// execution: marked executed and out of the active index.
    pub open spec fn reserved(self, path: Seq<char>, id: Seq<char>) -> ContractModel {
        ContractModel {
            permissions: self.permissions.insert(path, self.permissions[path].with_executed(id, true)),
            active: seq_remove(self.active, (path, id)),
            ..self
        }
    }

    /// The state in which the reservation of operation `id` of `path` is
    /// given back: not executed and in the active index again. Where the
    /// operation is gone, nothing changes.
    pub open spec fn released(self, path: Seq<char>, id: Seq<char>) -> ContractModel {
        if self.has_operation(path, id) {
            ContractModel {
                permissions: self.permissions.insert(
                    path,
                    self.permissions[path].with_executed(id, false),
                ),
                active: seq_insert(self.active, (path, id)),
                ..self
            }
        } else {
            self
        }
    }

    /// The operations behind the entries of an index, in the entries'
    /// order; an entry without an operation is passed over.
    pub open spec fn resolve(self, entries: Seq<(Seq<char>, Seq<char>)>) -> Seq<
        (Seq<char>, OperationModel),
    >
        decreases entries.len(),
    {
        if entries.len() == 0 {
            Seq::empty()
        } else {
            let rest = self.resolve(entries.drop_last());
            let entry = entries.last();
            if self.has_operation(entry.0, entry.1) {
                rest.push((entry.0, self.operation(entry.0, entry.1)))
            } else {
                rest
            }
        }
    }

    /// Where a page of at most `limit` entries that begins at `from_index`
    /// ends in an index of `len` entries.
    pub open spec fn page_end(len: nat, from_index: u64, limit: u64) -> int {
        if from_index + limit < len {
            from_index + limit
        } else {
            len as int
        }
    }

    /// The page of the active index that begins at entry `from_index` and
    /// holds at most `limit` entries.
    pub open spec fn active_page(self, from_index: u64, limit: u64) -> Seq<(Seq<char>, Seq<char>)> {
        if from_index >= self.active.len() {
            Seq::empty()
        } else {
            self.active.subrange(
                from_index as int,
                Self::page_end(self.active.len(), from_index, limit),
            )
        }
    }
}

} // verus!
